//! Parses the subset of the Multiboot2 boot information structure the kernel
//! needs: the framebuffer tag the bootloader fills in from VBE (BIOS) or GOP
//! (UEFI).

use vstd::prelude::*;

verus! {

/// Tag type of the framebuffer information tag.
pub const TAG_TYPE_FRAMEBUFFER: u32 = 8;
/// Tag type that ends the tag list.
pub const TAG_TYPE_END: u32 = 0;
/// Framebuffer type of a direct-RGB (linear) framebuffer.
pub const FRAMEBUFFER_TYPE_RGB: u8 = 1;
/// The first tag follows the 8-byte header (total size and a reserved word).
pub const FIRST_TAG_OFFSET: u64 = 8;
/// Bytes of the framebuffer tag that the parser reads.
pub const FRAMEBUFFER_TAG_BYTES: u64 = 38;

/// Geometry and pixel format of a linear framebuffer.
#[derive(Clone, Copy, Debug, PartialEq, Eq, Structural)]
pub struct FramebufferInfo {
    pub addr: u64,
    pub pitch: u32,
    pub width: u32,
    pub height: u32,
    pub bpp: u8,
    pub red_pos: u8,
    pub red_size: u8,
    pub green_pos: u8,
    pub green_size: u8,
    pub blue_pos: u8,
    pub blue_size: u8,
}

/// Little-endian `u32` at `at`.
pub open spec fn le_u32(b: Seq<u8>, at: int) -> int {
    b[at] + b[at + 1] * 0x100 + b[at + 2] * 0x10000 + b[at + 3] * 0x1000000
}

/// Little-endian `u64` at `at`.
pub open spec fn le_u64(b: Seq<u8>, at: int) -> int {
    le_u32(b, at) + le_u32(b, at + 4) * 0x1_0000_0000
}

/// A tag's size rounded up to the 8-byte alignment of the next tag.
pub open spec fn tag_advance(tag_size: int) -> int {
    (tag_size + 7) / 8 * 8
}

/// The fields of the framebuffer tag at `at`, if it is complete in `b` and
/// describes a direct-RGB framebuffer.
pub open spec fn framebuffer_tag(b: Seq<u8>, at: int) -> Option<FramebufferInfo> {
    if at + FRAMEBUFFER_TAG_BYTES > b.len() || b[at + 29] != FRAMEBUFFER_TYPE_RGB {
        None
    } else {
        Some(FramebufferInfo {
            addr: le_u64(b, at + 8) as u64,
            pitch: le_u32(b, at + 16) as u32,
            width: le_u32(b, at + 20) as u32,
            height: le_u32(b, at + 24) as u32,
            bpp: b[at + 28],
            red_pos: b[at + 32],
            red_size: b[at + 33],
            green_pos: b[at + 34],
            green_size: b[at + 35],
            blue_pos: b[at + 36],
            blue_size: b[at + 37],
        })
    }
}

/// Walks the tag list from `offset` within the first `total` bytes. The
/// walk stops at the end tag, at the first framebuffer tag, when no further
/// tag header fits, or when a header lies beyond `b`. `None` means the walk
/// never ends: a tag of size zero would be visited forever.
pub open spec fn scan_tags(b: Seq<u8>, total: int, offset: int) -> Option<Option<FramebufferInfo>>
    decreases (if offset < total { total - offset } else { 0 }),
{
    if offset + 8 > total || offset + 8 > b.len() {
        Some(None)
    } else if le_u32(b, offset) == TAG_TYPE_END {
        Some(None)
    } else if le_u32(b, offset) == TAG_TYPE_FRAMEBUFFER {
        Some(framebuffer_tag(b, offset))
    } else if tag_advance(le_u32(b, offset + 4)) <= 0 {
        None
    } else {
        scan_tags(b, total, offset + tag_advance(le_u32(b, offset + 4)))
    }
}

/// The framebuffer the boot information `b` describes: the walk over its
/// tags, bounded by the total size in its first four bytes.
pub open spec fn boot_framebuffer(b: Seq<u8>) -> Option<Option<FramebufferInfo>> {
    if b.len() < 4 {
        Some(None)
    } else {
        scan_tags(b, le_u32(b, 0), FIRST_TAG_OFFSET as int)
    }
}

fn read_u32_le(b: &[u8], at: usize) -> (r: u32)
    requires
        at + 4 <= b@.len(),
    ensures
        r == le_u32(b@, at as int),
{
    b[at] as u32 + (b[at + 1] as u32) * 0x100 + (b[at + 2] as u32) * 0x10000 + (b[at + 3] as u32) * 0x1000000
}

fn read_u64_le(b: &[u8], at: usize) -> (r: u64)
    requires
        at + 8 <= b.len(),
    ensures
        r == le_u64(b@, at as int),
{
    read_u32_le(b, at) as u64 + (read_u32_le(b, at + 4) as u64) * 0x1_0000_0000
}

fn read_framebuffer_tag(b: &[u8], at: usize) -> (r: Option<FramebufferInfo>)
    requires
        at + 8 <= b@.len(),
    ensures
        r == framebuffer_tag(b@, at as int),
{
    if b.len() < FRAMEBUFFER_TAG_BYTES as usize || at > b.len() - FRAMEBUFFER_TAG_BYTES as usize || b[at + 29] != FRAMEBUFFER_TYPE_RGB {
        return None;
    }
    Some(FramebufferInfo {
        addr: read_u64_le(b, at + 8),
        pitch: read_u32_le(b, at + 16),
        width: read_u32_le(b, at + 20),
        height: read_u32_le(b, at + 24),
        bpp: b[at + 28],
        red_pos: b[at + 32],
        red_size: b[at + 33],
        green_pos: b[at + 34],
        green_size: b[at + 35],
        blue_pos: b[at + 36],
        blue_size: b[at + 37],
    })
}

/// `(size + 7) & !7` is `size` rounded up to a multiple of 8.
proof fn lemma_round_up_8(size: u64)
    requires
        size < 0x1_0000_0000,
    ensures
        ((size + 7) as u64) & !7u64 == tag_advance(size as int),
{
    assert(((size + 7) as u64) & !7u64 == ((size + 7) / 8) * 8) by (bit_vector)
        requires size < 0x1_0000_0000u64;
}

/// The whole walk; `None` where it would never end.
fn scan(info: &[u8]) -> (r: Option<Option<FramebufferInfo>>)
    ensures
        r == boot_framebuffer(info@),
{
    if info.len() < 4 {
        return Some(None);
    }
    let total = read_u32_le(info, 0) as u64;
    let mut offset: u64 = FIRST_TAG_OFFSET;
    while offset + 8 <= total
        invariant
            info@.len() >= 4,
            total == le_u32(info@, 0),
            total < 0x1_0000_0000,
            offset < 0x2_0000_0000,
            scan_tags(info@, total as int, offset as int) == boot_framebuffer(info@),
        decreases (if offset < total { total - offset } else { 0 }),
    {
        if offset + 8 > info.len() as u64 {
            return Some(None);
        }
        let at = offset as usize;
        let tag_type = read_u32_le(info, at);
        let tag_size = read_u32_le(info, at + 4) as u64;
        if tag_type == TAG_TYPE_END {
            return Some(None);
        }
        if tag_type == TAG_TYPE_FRAMEBUFFER {
            return Some(read_framebuffer_tag(info, at));
        }
        proof {
            lemma_round_up_8(tag_size);
        }
        let advance = (tag_size + 7) & !7u64;
        if advance == 0 {
            return None;
        }
        offset = offset + advance;
    }
    Some(None)
}

/// Walks the tag list of the boot information `info` (the bytes the
/// bootloader's pointer refers to) and returns the framebuffer tag's fields.
/// Only the direct-RGB type is accepted, since that is what VBE/GOP linear
/// framebuffers report. `None` when the list ends first, when the
/// framebuffer is not direct-RGB, or when a tag lies beyond `info`. The walk
/// must end: a list with a zero-sized tag before its end is not accepted
/// (see `tag_walk_ends`).
pub fn find_framebuffer(info: &[u8]) -> (r: Option<FramebufferInfo>)
    requires
        boot_framebuffer(info@) is Some,
    ensures
        r == boot_framebuffer(info@)->0,
{
    match scan(info) {
        Some(r) => r,
        None => None,
    }
}

/// Whether the walk over the tag list of `info` ends, that is whether
/// `find_framebuffer` may be called on it.
pub fn tag_walk_ends(info: &[u8]) -> (r: bool)
    ensures
        r == (boot_framebuffer(info@) is Some),
{
    scan(info).is_some()
}

/// What the walk finds is always a complete direct-RGB framebuffer tag at an
/// 8-byte aligned offset inside the list, and the info is read from that
/// tag's bytes.
pub proof fn lemma_found_tag_is_rgb_framebuffer(b: Seq<u8>, total: int, offset: int)
    requires
        offset % 8 == 0,
        scan_tags(b, total, offset) matches Some(Some(_)),
    ensures
        exists|at: int|
            #![trigger framebuffer_tag(b, at)]
            at % 8 == 0 && offset <= at && at + 8 <= total
                && le_u32(b, at) == TAG_TYPE_FRAMEBUFFER
                && at + FRAMEBUFFER_TAG_BYTES <= b.len()
                && b[at + 29] == FRAMEBUFFER_TYPE_RGB
                && scan_tags(b, total, offset) == Some(framebuffer_tag(b, at)),
    decreases (if offset < total { total - offset } else { 0 }),
{
    if offset + 8 > total || offset + 8 > b.len() {
    } else if le_u32(b, offset) == TAG_TYPE_END {
    } else if le_u32(b, offset) == TAG_TYPE_FRAMEBUFFER {
        assert(framebuffer_tag(b, offset) is Some);
    } else if tag_advance(le_u32(b, offset + 4)) <= 0 {
    } else {
        let next = offset + tag_advance(le_u32(b, offset + 4));
        let s = le_u32(b, offset + 4);
        assert(tag_advance(s) % 8 == 0) by (nonlinear_arith)
            requires tag_advance(s) == (s + 7) / 8 * 8;
        lemma_found_tag_is_rgb_framebuffer(b, total, next);
    }
}


/// What the boot information's walk finds is read field by field from a
/// direct-RGB framebuffer tag (type 8, framebuffer type 1) at an 8-byte
/// aligned offset after the header: the address, pitch, width and height
/// are the little-endian words at tag offsets 8, 16, 20 and 24, the bits
/// per pixel is byte 28, and the red, green and blue positions and sizes
/// are bytes 32 to 37, in that order.
pub proof fn lemma_found_framebuffer_fields(b: Seq<u8>)
    requires
        boot_framebuffer(b) matches Some(Some(_)),
    ensures
        exists|at: int|
            #![trigger b[at + 29]]
            {
                let info = boot_framebuffer(b)->0->0;
                &&& at % 8 == 0 && 8 <= at && at + 38 <= b.len()
                &&& at + 8 <= b[0] + b[1] * 0x100 + b[2] * 0x1_0000 + b[3] * 0x100_0000
                &&& b[at] == 8 && b[at + 1] == 0 && b[at + 2] == 0 && b[at + 3] == 0
                &&& b[at + 29] == 1
                &&& info.addr == b[at + 8] + b[at + 9] * 0x100 + b[at + 10] * 0x1_0000 + b[at + 11] * 0x100_0000
                    + b[at + 12] * 0x1_0000_0000 + b[at + 13] * 0x100_0000_0000
                    + b[at + 14] * 0x1_0000_0000_0000 + b[at + 15] * 0x100_0000_0000_0000
                &&& info.pitch == b[at + 16] + b[at + 17] * 0x100 + b[at + 18] * 0x1_0000 + b[at + 19] * 0x100_0000
                &&& info.width == b[at + 20] + b[at + 21] * 0x100 + b[at + 22] * 0x1_0000 + b[at + 23] * 0x100_0000
                &&& info.height == b[at + 24] + b[at + 25] * 0x100 + b[at + 26] * 0x1_0000 + b[at + 27] * 0x100_0000
                &&& info.bpp == b[at + 28]
                &&& info.red_pos == b[at + 32]
                &&& info.red_size == b[at + 33]
                &&& info.green_pos == b[at + 34]
                &&& info.green_size == b[at + 35]
                &&& info.blue_pos == b[at + 36]
                &&& info.blue_size == b[at + 37]
            },
{
    let total = le_u32(b, 0);
    lemma_found_tag_is_rgb_framebuffer(b, total, FIRST_TAG_OFFSET as int);
    let at = choose|at: int|
        #![trigger framebuffer_tag(b, at)]
        at % 8 == 0 && FIRST_TAG_OFFSET <= at && at + 8 <= total
            && le_u32(b, at) == TAG_TYPE_FRAMEBUFFER
            && at + FRAMEBUFFER_TAG_BYTES <= b.len()
            && b[at + 29] == FRAMEBUFFER_TYPE_RGB
            && scan_tags(b, total, FIRST_TAG_OFFSET as int) == Some(framebuffer_tag(b, at));
    assert(b[at + 29] == 1);
}
} // verus!
