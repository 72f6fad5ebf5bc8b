//! A text console drawn into a linear pixel framebuffer: glyphs from a 9x16
//! bitmap font, packed into whatever RGB pixel layout the bootloader
//! reported, with line wrapping, scrolling and backspace.

use vstd::prelude::*;

verus! {

use crate::multiboot2::{FramebufferInfo, boot_framebuffer, find_framebuffer};
use crate::{BACKSPACE, NEWLINE, SPACE};
use vstd::arithmetic::div_mod::{lemma_fundamental_div_mod, lemma_fundamental_div_mod_converse, lemma_mod_bound};
use vstd::string::StringSliceAdditionalSpecFns;

pub const GLYPH_WIDTH: usize = 9;
pub const GLYPH_HEIGHT: usize = 16;
/// Scale is a ratio (SCALE_NUM / SCALE_DEN); each destination pixel samples
/// its nearest source pixel.
pub const SCALE_NUM: usize = 1;
pub const SCALE_DEN: usize = 1;
pub const CELL_WIDTH: usize = (GLYPH_WIDTH * SCALE_NUM) / SCALE_DEN;
pub const CELL_HEIGHT: usize = (GLYPH_HEIGHT * SCALE_NUM) / SCALE_DEN;
/// Pixels in a cell (`CELL_WIDTH * CELL_HEIGHT`), drawn row by row.
pub const CELL_PIXELS: usize = 144;
/// Glyphs in a font: one per byte value.
pub const FONT_GLYPHS: usize = 256;
/// Rows in a font: `GLYPH_HEIGHT` per glyph.
pub const FONT_ROWS: usize = 4096;

/// Foreground (white) and background (black) colours.
pub const FG_RED: u8 = 0xFF;
pub const FG_GREEN: u8 = 0xFF;
pub const FG_BLUE: u8 = 0xFF;
pub const BG_RED: u8 = 0x00;
pub const BG_GREEN: u8 = 0x00;
pub const BG_BLUE: u8 = 0x00;

/// The console's view of a framebuffer: its pixel layout and how many text
/// cells it holds.
#[derive(Clone, Copy, Debug, PartialEq, Eq, Structural)]
pub struct FbGeometry {
    /// Bytes from one pixel row to the next.
    pub pitch: usize,
    pub bytes_per_pixel: usize,
    /// Text columns and rows that fit on the screen.
    pub cols: usize,
    pub rows: usize,
    pub red_pos: u8,
    pub red_size: u8,
    pub green_pos: u8,
    pub green_size: u8,
    pub blue_pos: u8,
    pub blue_size: u8,
}

/// The console's geometry for a framebuffer: bits per pixel rounded up to
/// bytes, and as many whole character cells as fit.
pub open spec fn geometry_of(info: FramebufferInfo) -> FbGeometry {
    FbGeometry {
        pitch: info.pitch as usize,
        bytes_per_pixel: ((info.bpp + 7) / 8) as usize,
        cols: (info.width as int / CELL_WIDTH as int) as usize,
        rows: (info.height as int / CELL_HEIGHT as int) as usize,
        red_pos: info.red_pos,
        red_size: info.red_size,
        green_pos: info.green_pos,
        green_size: info.green_size,
        blue_pos: info.blue_pos,
        blue_size: info.blue_size,
    }
}

/// Bytes of the text area: every pixel row of every text row.
pub open spec fn text_bytes(g: FbGeometry) -> int {
    g.pitch * g.rows * CELL_HEIGHT
}

/// The text area fits in memory, and pixel coordinates up to one cell past
/// the last column and row are addressable.
pub open spec fn geometry_fits(g: FbGeometry) -> bool {
    &&& text_bytes(g) <= usize::MAX
    &&& (g.cols + 1) * CELL_WIDTH <= usize::MAX
    &&& (g.rows + 1) * CELL_HEIGHT <= usize::MAX
}

/// Every colour channel is at most eight bits wide and sits inside a 32-bit
/// pixel, so packing a colour cannot overflow a shift.
pub open spec fn channels_ok(g: FbGeometry) -> bool {
    &&& g.red_size <= 8 && g.green_size <= 8 && g.blue_size <= 8
    &&& g.red_pos < 32 && g.green_pos < 32 && g.blue_pos < 32
}

/// Colours can be packed and written: channels as above and pixels of at
/// most four bytes.
pub open spec fn pixel_format_ok(g: FbGeometry) -> bool {
    &&& channels_ok(g)
    &&& g.bytes_per_pixel <= 4
}

/// A geometry on which every console operation can run from any reachable
/// state: a usable pixel format, at least one text cell, and every text
/// column inside a pixel row.
pub open spec fn geometry_drawable(g: FbGeometry) -> bool {
    &&& pixel_format_ok(g)
    &&& g.cols >= 1 && g.rows >= 1
    &&& g.cols * CELL_WIDTH * g.bytes_per_pixel <= g.pitch
}

/// The text area's size, and its first factor, fit in a `usize`.
proof fn lemma_text_bytes_fit(g: FbGeometry)
    requires
        geometry_fits(g),
    ensures
        g.pitch * g.rows <= usize::MAX,
        g.pitch * g.rows * CELL_HEIGHT <= usize::MAX,
{
    assert(g.pitch * g.rows <= g.pitch * g.rows * CELL_HEIGHT) by (nonlinear_arith)
        requires g.pitch >= 0, g.rows >= 0;
}

/// One 8-bit channel value scaled down to `size` bits and moved to `pos`.
pub open spec fn channel(v: u8, pos: u8, size: u8) -> u32 {
    ((v as u32) >> ((8 - size) as u32)) << (pos as u32)
}

/// An (r, g, b) triple packed into the framebuffer's pixel format.
pub open spec fn pack_color_spec(g: FbGeometry, r: u8, gr: u8, b: u8) -> u32 {
    channel(r, g.red_pos, g.red_size) | channel(gr, g.green_pos, g.green_size) | channel(b, g.blue_pos, g.blue_size)
}

/// Byte `i` (little-endian) of a packed pixel.
pub open spec fn color_byte(color: u32, i: int) -> u8 {
    ((color >> ((8 * i) as u32)) & 0xFF) as u8
}

/// Offset of the first byte of pixel (x, y).
pub open spec fn pixel_offset(g: FbGeometry, x: int, y: int) -> int {
    y * g.pitch + x * g.bytes_per_pixel
}

/// `mem` with the bytes of pixel (x, y) set to `color`, little-endian.
pub open spec fn put_pixel_spec(g: FbGeometry, mem: Seq<u8>, x: int, y: int, color: u32) -> Seq<u8> {
    Seq::new(
        mem.len(),
        |k: int|
            if pixel_offset(g, x, y) <= k < pixel_offset(g, x, y) + g.bytes_per_pixel {
                color_byte(color, k - pixel_offset(g, x, y))
            } else {
                mem[k]
            },
    )
}

/// The pixel row of framebuffer byte `k`.
pub open spec fn pixel_y(g: FbGeometry, k: int) -> int {
    k / (g.pitch as int)
}

/// The pixel column of framebuffer byte `k`.
pub open spec fn pixel_x(g: FbGeometry, k: int) -> int {
    (k % (g.pitch as int)) / (g.bytes_per_pixel as int)
}

/// Which byte of its pixel framebuffer byte `k` is.
pub open spec fn pixel_byte(g: FbGeometry, k: int) -> int {
    (k % (g.pitch as int)) % (g.bytes_per_pixel as int)
}

/// Byte `k` lies in pixel (x, y) exactly when it is one of that pixel's
/// bytes, for a pixel inside its pixel row.
proof fn lemma_pixel_decode(g: FbGeometry, x: int, y: int, i: int)
    requires
        g.pitch > 0,
        g.bytes_per_pixel > 0,
        0 <= y,
        0 <= x,
        0 <= i < g.bytes_per_pixel,
        x * g.bytes_per_pixel + g.bytes_per_pixel <= g.pitch,
    ensures
        pixel_y(g, y * g.pitch + x * g.bytes_per_pixel + i) == y,
        pixel_x(g, y * g.pitch + x * g.bytes_per_pixel + i) == x,
        pixel_byte(g, y * g.pitch + x * g.bytes_per_pixel + i) == i,
{
    let p = g.pitch as int;
    let b = g.bytes_per_pixel as int;
    let k = y * p + x * b + i;
    assert(0 <= x * b + i < p) by (nonlinear_arith)
        requires 0 <= x, 0 <= i < b, x * b + b <= p;
    lemma_fundamental_div_mod_converse(k, p, y, x * b + i);
    lemma_fundamental_div_mod_converse(x * b + i, b, x, i);
}

/// A byte whose pixel is (x, y) sits at that pixel's offset plus its byte
/// index, which is below the pixel size.
proof fn lemma_pixel_encode(g: FbGeometry, k: int)
    requires
        g.pitch > 0,
        g.bytes_per_pixel > 0,
        0 <= k,
    ensures
        k == pixel_y(g, k) * g.pitch + pixel_x(g, k) * g.bytes_per_pixel + pixel_byte(g, k),
        0 <= pixel_byte(g, k) < g.bytes_per_pixel,
        0 <= pixel_x(g, k),
        0 <= pixel_y(g, k),
{
    let p = g.pitch as int;
    let b = g.bytes_per_pixel as int;
    lemma_fundamental_div_mod(k, p);
    lemma_fundamental_div_mod(k % p, b);
    assert(p * (k / p) == (k / p) * p) by (nonlinear_arith);
    assert(b * ((k % p) / b) == ((k % p) / b) * b) by (nonlinear_arith);
    assert(0 <= k / p) by (nonlinear_arith) requires 0 <= k, p > 0;
    assert(0 <= (k % p) / b) by (nonlinear_arith) requires 0 <= k % p, b > 0;
}

/// Packs an (r, g, b) triple into the pixel format of `g`, shifting each
/// channel by the position and size the bootloader reported.
pub fn pack_color(g: &FbGeometry, r: u8, gr: u8, b: u8) -> (c: u32)
    requires
        channels_ok(*g),
    ensures
        c == pack_color_spec(*g, r, gr, b),
{
    let rc = ((r as u32) >> ((8 - g.red_size) as u32)) << (g.red_pos as u32);
    let gc = ((gr as u32) >> ((8 - g.green_size) as u32)) << (g.green_pos as u32);
    let bc = ((b as u32) >> ((8 - g.blue_size) as u32)) << (g.blue_pos as u32);
    rc | gc | bc
}

/// Writes `color` into pixel (x, y) of `mem`, byte by byte, little-endian.
/// Nothing is written when pixels have no bytes.
fn put_pixel(g: &FbGeometry, mem: &mut Vec<u8>, x: usize, y: usize, color: u32)
    requires
        g.bytes_per_pixel <= 4,
        g.bytes_per_pixel == 0 || pixel_offset(*g, x as int, y as int) + g.bytes_per_pixel <= old(mem).len(),
    ensures
        final(mem)@ == put_pixel_spec(*g, old(mem)@, x as int, y as int, color),
{
    let ghost orig = mem@;
    if g.bytes_per_pixel == 0 {
        assert(mem@ =~= put_pixel_spec(*g, orig, x as int, y as int, color));
        return;
    }
    let ghost off = pixel_offset(*g, x as int, y as int);
    proof {
        assert(0 <= y * g.pitch) by (nonlinear_arith) requires 0 <= y, 0 <= g.pitch;
        assert(0 <= x * g.bytes_per_pixel) by (nonlinear_arith) requires 0 <= x, 0 <= g.bytes_per_pixel;
    }
    let offset = y * g.pitch + x * g.bytes_per_pixel;
    let mut i: usize = 0;
    while i < g.bytes_per_pixel
        invariant
            g.bytes_per_pixel <= 4,
            i <= g.bytes_per_pixel,
            offset == off,
            off == pixel_offset(*g, x as int, y as int),
            off + g.bytes_per_pixel <= mem.len(),
            mem@.len() == orig.len(),
            forall|k: int| 0 <= k < mem@.len() ==> #[trigger] mem@[k] == (
                if off <= k < off + i { color_byte(color, k - off) } else { orig[k] }),
        decreases g.bytes_per_pixel - i,
    {
        assert(8 * i < 32);
        let byte = ((color >> (8 * i as u32)) & 0xFF) as u8;
        mem.set(offset + i, byte);
        i = i + 1;
    }
    assert(mem@ =~= put_pixel_spec(*g, orig, x as int, y as int, color));
}

/// A 9x16 bitmap font: for each of the 256 byte values, sixteen rows whose
/// bit `x` is set where column `x` of the glyph is foreground.
pub struct Font {
    rows: Vec<u16>,
}

impl View for Font {
    type V = Seq<u16>;

    closed spec fn view(&self) -> Seq<u16> {
        self.rows@
    }
}

impl Font {
    /// Wraps the glyph rows of a font; `None` unless there are exactly
    /// sixteen rows for each of the 256 glyphs.
    pub fn new(rows: Vec<u16>) -> (f: Option<Font>)
        ensures
            match f {
                Some(font) => rows@.len() == FONT_ROWS && font@ == rows@,
                None => rows@.len() != FONT_ROWS,
            },
    {
        if rows.len() == FONT_ROWS {
            Some(Font { rows })
        } else {
            None
        }
    }
}

/// Whether destination pixel (dx, dy) of the cell for `byte` is
/// foreground: it samples its nearest source pixel of the glyph.
pub open spec fn glyph_bit(font: Seq<u16>, byte: u8, dx: int, dy: int) -> bool {
    let src_x = (dx * SCALE_DEN) / (SCALE_NUM as int);
    let src_y = (dy * SCALE_DEN) / (SCALE_NUM as int);
    (font[byte * GLYPH_HEIGHT + src_y] >> (src_x as u16)) & 1u16 != 0
}

/// The packed colour of pixel (dx, dy) of the cell for `byte`.
pub open spec fn cell_color(g: FbGeometry, font: Seq<u16>, byte: u8, dx: int, dy: int) -> u32 {
    if glyph_bit(font, byte, dx, dy) {
        pack_color_spec(g, FG_RED, FG_GREEN, FG_BLUE)
    } else {
        pack_color_spec(g, BG_RED, BG_GREEN, BG_BLUE)
    }
}

/// `mem` after the first `n` pixels of the glyph for `byte` have been
/// written into cell (col, row), row by row and left to right; pixel `m` is
/// at column `m % CELL_WIDTH` and row `m / CELL_WIDTH` of the cell.
pub open spec fn glyph_writes(
    g: FbGeometry,
    font: Seq<u16>,
    mem: Seq<u8>,
    col: int,
    row: int,
    byte: u8,
    n: nat,
) -> Seq<u8>
    decreases n,
{
    if n == 0 {
        mem
    } else {
        let m = (n - 1) as int;
        let dx = m % (CELL_WIDTH as int);
        let dy = m / (CELL_WIDTH as int);
        put_pixel_spec(
            g,
            glyph_writes(g, font, mem, col, row, byte, (n - 1) as nat),
            col * CELL_WIDTH + dx,
            row * CELL_HEIGHT + dy,
            cell_color(g, font, byte, dx, dy),
        )
    }
}

/// `mem` with the glyph for `byte` drawn in text cell (col, row): all the
/// cell's pixels written in order.
pub open spec fn draw_glyph_spec(g: FbGeometry, font: Seq<u16>, mem: Seq<u8>, col: int, row: int, byte: u8) -> Seq<u8> {
    glyph_writes(g, font, mem, col, row, byte, CELL_PIXELS as nat)
}

/// Every byte that drawing a glyph in cell (col, row) writes lies in the
/// text area.
pub open spec fn cell_in_range(g: FbGeometry, col: int, row: int) -> bool {
    g.bytes_per_pixel == 0
        || (row * CELL_HEIGHT + CELL_HEIGHT - 1) * g.pitch + (col * CELL_WIDTH + CELL_WIDTH) * g.bytes_per_pixel
            <= text_bytes(g)
}

/// The pixels of column `col` are nonempty and lie inside their pixel rows.
pub open spec fn cell_fits_row(g: FbGeometry, col: int) -> bool {
    &&& g.bytes_per_pixel >= 1
    &&& (col * CELL_WIDTH + CELL_WIDTH) * g.bytes_per_pixel <= g.pitch
}

/// Whether framebuffer byte `k` belongs to text cell (col, row).
pub open spec fn in_cell(g: FbGeometry, k: int, col: int, row: int) -> bool {
    &&& col * CELL_WIDTH <= pixel_x(g, k) < col * CELL_WIDTH + CELL_WIDTH
    &&& row * CELL_HEIGHT <= pixel_y(g, k) < row * CELL_HEIGHT + CELL_HEIGHT
}

/// Position of byte `k`'s pixel in the drawing order of cell (col, row).
spec fn cell_index(g: FbGeometry, k: int, col: int, row: int) -> int {
    (pixel_y(g, k) - row * CELL_HEIGHT) * CELL_WIDTH + (pixel_x(g, k) - col * CELL_WIDTH)
}

/// The glyph image as pixels: every byte of every pixel of the cell holds
/// the matching byte of the foreground or background colour, and every
/// other byte keeps its value.
pub open spec fn glyph_image(g: FbGeometry, font: Seq<u16>, mem: Seq<u8>, col: int, row: int, byte: u8) -> Seq<u8> {
    Seq::new(
        mem.len(),
        |k: int|
            if in_cell(g, k, col, row) {
                color_byte(
                    cell_color(g, font, byte, pixel_x(g, k) - col * CELL_WIDTH, pixel_y(g, k) - row * CELL_HEIGHT),
                    pixel_byte(g, k),
                )
            } else {
                mem[k]
            },
    )
}

/// The glyph image restricted to the first `n` pixels of the cell.
spec fn glyph_image_until(g: FbGeometry, font: Seq<u16>, mem: Seq<u8>, col: int, row: int, byte: u8, n: int) -> Seq<u8> {
    Seq::new(
        mem.len(),
        |k: int|
            if in_cell(g, k, col, row) && cell_index(g, k, col, row) < n {
                color_byte(
                    cell_color(g, font, byte, pixel_x(g, k) - col * CELL_WIDTH, pixel_y(g, k) - row * CELL_HEIGHT),
                    pixel_byte(g, k),
                )
            } else {
                mem[k]
            },
    )
}

proof fn lemma_glyph_writes_until(g: FbGeometry, font: Seq<u16>, mem: Seq<u8>, col: int, row: int, byte: u8, n: nat)
    requires
        0 <= col,
        0 <= row,
        cell_fits_row(g, col),
        n <= CELL_PIXELS,
    ensures
        glyph_writes(g, font, mem, col, row, byte, n) == glyph_image_until(g, font, mem, col, row, byte, n as int),
    decreases n,
{
    let w = CELL_WIDTH as int;
    let b = g.bytes_per_pixel as int;
    let p = g.pitch as int;
    assert(p >= 9) by (nonlinear_arith)
        requires (col * 9 + 9) * b <= p, b >= 1, col >= 0;
    if n == 0 {
        assert(glyph_writes(g, font, mem, col, row, byte, n) =~= glyph_image_until(g, font, mem, col, row, byte, 0));
    } else {
        let m = n - 1;
        lemma_glyph_writes_until(g, font, mem, col, row, byte, (n - 1) as nat);
        let dx = m % w;
        let dy = m / w;
        lemma_fundamental_div_mod(m, w);
        lemma_mod_bound(m, w);
        assert(0 <= dy < CELL_HEIGHT);
        let x = col * w + dx;
        let y = row * CELL_HEIGHT + dy;
        let off = pixel_offset(g, x, y);
        assert(x * b + b <= p) by (nonlinear_arith)
            requires x <= col * 9 + 8, (col * 9 + 9) * b <= p, b >= 1;
        assert(0 <= x && 0 <= y);
        let prev = glyph_writes(g, font, mem, col, row, byte, (n - 1) as nat);
        let cur = glyph_writes(g, font, mem, col, row, byte, n);
        let want = glyph_image_until(g, font, mem, col, row, byte, n as int);
        assert forall|k: int| 0 <= k < mem.len() implies #[trigger] cur[k] == want[k] by {
            if off <= k < off + b {
                lemma_pixel_decode(g, x, y, k - off);
                assert(cell_index(g, k, col, row) == m);
            } else {
                lemma_pixel_encode(g, k);
                if in_cell(g, k, col, row) && cell_index(g, k, col, row) == m {
                    let px = pixel_x(g, k) - col * w;
                    let py = pixel_y(g, k) - row * CELL_HEIGHT;
                    lemma_fundamental_div_mod_converse(m, w, py, px);
                    assert(pixel_x(g, k) == x && pixel_y(g, k) == y);
                    assert(false);
                }
            }
        }
        assert(cur =~= want);
    }
}

/// When the cell's pixels lie inside their pixel rows, drawing a glyph
/// paints exactly the cell: each of its bytes gets the matching byte of the
/// foreground or background colour that the font bit selects, and nothing
/// outside the cell changes.
pub proof fn lemma_glyph_pixels(g: FbGeometry, font: Seq<u16>, mem: Seq<u8>, col: int, row: int, byte: u8)
    requires
        0 <= col,
        0 <= row,
        cell_fits_row(g, col),
    ensures
        draw_glyph_spec(g, font, mem, col, row, byte) == glyph_image(g, font, mem, col, row, byte),
{
    lemma_glyph_writes_until(g, font, mem, col, row, byte, CELL_PIXELS as nat);
    assert forall|k: int| 0 <= k < mem.len() && in_cell(g, k, col, row) implies cell_index(g, k, col, row) < CELL_PIXELS by {
        let px = pixel_x(g, k) - col * CELL_WIDTH;
        let py = pixel_y(g, k) - row * CELL_HEIGHT;
        assert(py * 9 + px < 144) by (nonlinear_arith)
            requires 0 <= px < 9, 0 <= py < 16;
    }
    assert(glyph_image_until(g, font, mem, col, row, byte, CELL_PIXELS as int) =~= glyph_image(g, font, mem, col, row, byte));
}

/// The abstract state of the framebuffer console.
pub struct FbState {
    /// Physical address of the framebuffer the text area is shown at.
    pub addr: u64,
    pub geom: FbGeometry,
    pub font: Seq<u16>,
    /// The text area of the framebuffer.
    pub mem: Seq<u8>,
    pub col: int,
    pub row: int,
}

/// The text area has its geometry's size, the font has every glyph, and the
/// cursor is on the screen (or at the origin of a screen without cells; a
/// screen without columns puts it just past the first cell).
pub open spec fn fb_wf(s: FbState) -> bool {
    &&& s.font.len() == FONT_ROWS
    &&& geometry_fits(s.geom)
    &&& s.mem.len() == text_bytes(s.geom)
    &&& 0 <= s.col && (s.col <= s.geom.cols || s.col == 1)
    &&& 0 <= s.row && (s.row < s.geom.rows || s.row == 0)
}

/// The console on a blank (all-zero) text area with the cursor at the top
/// left.
pub open spec fn fb_cleared(s: FbState) -> FbState {
    FbState { mem: Seq::new(s.mem.len(), |k: int| 0u8), col: 0, row: 0, ..s }
}

/// Bytes of one text row.
pub open spec fn text_row_bytes(g: FbGeometry) -> int {
    g.pitch * CELL_HEIGHT
}

/// Every pixel row moves up by one text row; the last text row becomes
/// blank.
pub open spec fn fb_scrolled(g: FbGeometry, mem: Seq<u8>) -> Seq<u8> {
    Seq::new(
        mem.len(),
        |k: int|
            if k < mem.len() - text_row_bytes(g) {
                mem[k + text_row_bytes(g)]
            } else {
                0u8
            },
    )
}

pub open spec fn fb_new_line_spec(s: FbState) -> FbState {
    if s.row + 1 >= s.geom.rows {
        FbState { mem: fb_scrolled(s.geom, s.mem), col: 0, row: s.geom.rows - 1, ..s }
    } else {
        FbState { col: 0, row: s.row + 1, ..s }
    }
}

pub open spec fn fb_write_byte_spec(s: FbState, byte: u8) -> FbState {
    if byte == NEWLINE {
        fb_new_line_spec(s)
    } else {
        let s1 = if s.col >= s.geom.cols { fb_new_line_spec(s) } else { s };
        FbState {
            mem: draw_glyph_spec(s1.geom, s1.font, s1.mem, s1.col, s1.row, byte),
            col: s1.col + 1,
            ..s1
        }
    }
}

pub open spec fn fb_backspace_spec(s: FbState) -> FbState {
    if s.col == 0 {
        s
    } else {
        FbState {
            mem: draw_glyph_spec(s.geom, s.font, s.mem, s.col - 1, s.row, SPACE),
            col: s.col - 1,
            ..s
        }
    }
}

pub open spec fn fb_putc_spec(s: FbState, byte: u8) -> FbState {
    if byte == NEWLINE {
        fb_new_line_spec(s)
    } else if byte == BACKSPACE {
        fb_backspace_spec(s)
    } else {
        fb_write_byte_spec(s, byte)
    }
}

pub open spec fn fb_write_bytes_spec(s: FbState, bytes: Seq<u8>) -> FbState
    decreases bytes.len(),
{
    if bytes.len() == 0 {
        s
    } else {
        fb_write_byte_spec(fb_write_bytes_spec(s, bytes.drop_last()), bytes.last())
    }
}

/// A glyph can be drawn in cell (col, row): colours can be packed and
/// written, and every byte written lies in the text area.
pub open spec fn fb_draw_pre(s: FbState, col: int, row: int) -> bool {
    &&& pixel_format_ok(s.geom)
    &&& cell_in_range(s.geom, col, row)
}

/// A new line can be started: there is a last row to stay on.
pub open spec fn fb_new_line_pre(s: FbState) -> bool {
    s.geom.rows >= 1
}

/// Writing `byte` neither overflows nor writes outside the text area.
pub open spec fn fb_write_byte_pre(s: FbState, byte: u8) -> bool {
    if byte == NEWLINE {
        fb_new_line_pre(s)
    } else if s.col >= s.geom.cols {
        fb_new_line_pre(s) && fb_draw_pre(fb_new_line_spec(s), 0, fb_new_line_spec(s).row)
    } else {
        fb_draw_pre(s, s.col, s.row)
    }
}

pub open spec fn fb_backspace_pre(s: FbState) -> bool {
    s.col == 0 || fb_draw_pre(s, s.col - 1, s.row)
}

pub open spec fn fb_putc_pre(s: FbState, byte: u8) -> bool {
    if byte == NEWLINE {
        fb_new_line_pre(s)
    } else if byte == BACKSPACE {
        fb_backspace_pre(s)
    } else {
        fb_write_byte_pre(s, byte)
    }
}

/// Every byte of `bytes` can be written in turn.
pub open spec fn fb_write_bytes_pre(s: FbState, bytes: Seq<u8>) -> bool
    decreases bytes.len(),
{
    if bytes.len() == 0 {
        true
    } else {
        fb_write_bytes_pre(s, bytes.drop_last())
            && fb_write_byte_pre(fb_write_bytes_spec(s, bytes.drop_last()), bytes.last())
    }
}

/// The framebuffer console.
pub struct Framebuffer {
    addr: u64,
    geom: FbGeometry,
    font: Font,
    mem: Vec<u8>,
    col: usize,
    row: usize,
}

impl View for Framebuffer {
    type V = FbState;

    closed spec fn view(&self) -> FbState {
        FbState {
            addr: self.addr,
            geom: self.geom,
            font: self.font@,
            mem: self.mem@,
            col: self.col as int,
            row: self.row as int,
        }
    }
}

impl Framebuffer {
    pub open spec fn wf(&self) -> bool {
        fb_wf(self@)
    }

    /// A console on the framebuffer at `addr`, with a blank (all-zero) text
    /// area and the cursor at the top left.
    pub fn new(addr: u64, geom: FbGeometry, font: Font) -> (fb: Framebuffer)
        requires
            geometry_fits(geom),
            font@.len() == FONT_ROWS,
        ensures
            fb.wf(),
            fb@ == (FbState {
                addr,
                geom,
                font: font@,
                mem: Seq::new(text_bytes(geom) as nat, |k: int| 0u8),
                col: 0,
                row: 0,
            }),
    {
        proof {
            lemma_text_bytes_fit(geom);
        }
        let total_bytes = geom.pitch * geom.rows * CELL_HEIGHT;
        let mut mem: Vec<u8> = Vec::new();
        let mut k: usize = 0;
        while k < total_bytes
            invariant
                total_bytes == text_bytes(geom),
                k <= total_bytes,
                mem@ == Seq::new(k as nat, |j: int| 0u8),
            decreases total_bytes - k,
        {
            mem.push(0);
            k = k + 1;
            assert(mem@ =~= Seq::new(k as nat, |j: int| 0u8));
        }
        Framebuffer { addr, geom, font, mem, col: 0, row: 0 }
    }

    fn draw_glyph(&mut self, col: usize, row: usize, byte: u8)
        requires
            old(self).wf(),
            fb_draw_pre(old(self)@, col as int, row as int),
            col <= old(self)@.geom.cols,
            row <= old(self)@.geom.rows,
        ensures
            final(self)@ == (FbState {
                mem: draw_glyph_spec(old(self)@.geom, old(self)@.font, old(self)@.mem, col as int, row as int, byte),
                ..old(self)@
            }),
    {
        let ghost orig = self.mem@;
        let ghost g = self.geom;
        let ghost font = self.font@;
        let fg = pack_color(&self.geom, FG_RED, FG_GREEN, FG_BLUE);
        let bg = pack_color(&self.geom, BG_RED, BG_GREEN, BG_BLUE);
        let glyph_base = byte as usize * GLYPH_HEIGHT;
        proof {
            assert(col * CELL_WIDTH + CELL_WIDTH <= (g.cols + 1) * CELL_WIDTH) by (nonlinear_arith)
                requires col <= g.cols;
            assert(row * CELL_HEIGHT + CELL_HEIGHT <= (g.rows + 1) * CELL_HEIGHT) by (nonlinear_arith)
                requires row <= g.rows;
        }
        let base_x = col * CELL_WIDTH;
        let base_y = row * CELL_HEIGHT;
        let mut dy: usize = 0;
        while dy < CELL_HEIGHT
            invariant
                self.wf(),
                self.addr == old(self).addr,
                self.geom == g,
                self.font@ == font,
                self.col == old(self).col,
                self.row == old(self).row,
                fb_draw_pre(self@, col as int, row as int),
                dy <= CELL_HEIGHT,
                base_x == col * CELL_WIDTH,
                base_y == row * CELL_HEIGHT,
                col * CELL_WIDTH + CELL_WIDTH <= usize::MAX,
                row * CELL_HEIGHT + CELL_HEIGHT <= usize::MAX,
                glyph_base == byte * GLYPH_HEIGHT,
                fg == pack_color_spec(g, FG_RED, FG_GREEN, FG_BLUE),
                bg == pack_color_spec(g, BG_RED, BG_GREEN, BG_BLUE),
                self.mem@ == glyph_writes(g, font, orig, col as int, row as int, byte, (dy * CELL_WIDTH) as nat),
            decreases CELL_HEIGHT - dy,
        {
            let src_y = (dy * SCALE_DEN) / SCALE_NUM;
            let bits = self.font.rows[glyph_base + src_y];
            let mut dx: usize = 0;
            while dx < CELL_WIDTH
                invariant
                    self.wf(),
                    self.addr == old(self).addr,
                    self.geom == g,
                    self.font@ == font,
                    self.col == old(self).col,
                    self.row == old(self).row,
                    fb_draw_pre(self@, col as int, row as int),
                    dy < CELL_HEIGHT,
                    dx <= CELL_WIDTH,
                    base_x == col * CELL_WIDTH,
                    base_y == row * CELL_HEIGHT,
                    col * CELL_WIDTH + CELL_WIDTH <= usize::MAX,
                    row * CELL_HEIGHT + CELL_HEIGHT <= usize::MAX,
                    src_y == dy,
                    bits == font[byte * GLYPH_HEIGHT + src_y],
                    fg == pack_color_spec(g, FG_RED, FG_GREEN, FG_BLUE),
                    bg == pack_color_spec(g, BG_RED, BG_GREEN, BG_BLUE),
                    self.mem@ == glyph_writes(g, font, orig, col as int, row as int, byte, (dy * CELL_WIDTH + dx) as nat),
                decreases CELL_WIDTH - dx,
            {
                let src_x = (dx * SCALE_DEN) / SCALE_NUM;
                let set = (bits >> src_x as u16) & 1 != 0;
                let color = if set { fg } else { bg };
                let x = base_x + dx;
                let y = base_y + dy;
                let ghost n = dy * CELL_WIDTH + dx;
                proof {
                    lemma_fundamental_div_mod_converse(n, CELL_WIDTH as int, dy as int, dx as int);
                    let b = g.bytes_per_pixel as int;
                    let p = g.pitch as int;
                    if b > 0 {
                        assert(y * p + x * b + b <= (row * CELL_HEIGHT + CELL_HEIGHT - 1) * p
                            + (col * CELL_WIDTH + CELL_WIDTH) * b) by (nonlinear_arith)
                            requires y <= row * 16 + 15, x + 1 <= col * 9 + 9, p >= 0, b >= 0;
                    }
                }
                assert(color == cell_color(g, font, byte, dx as int, dy as int));
                put_pixel(&self.geom, &mut self.mem, x, y, color);
                assert(self.mem@ == glyph_writes(g, font, orig, col as int, row as int, byte, (n + 1) as nat));
                dx = dx + 1;
            }
            assert(dy * CELL_WIDTH + CELL_WIDTH == (dy + 1) * CELL_WIDTH) by (nonlinear_arith);
            dy = dy + 1;
        }
        assert(CELL_HEIGHT * CELL_WIDTH == CELL_PIXELS);
    }

    fn scroll_up(&mut self)
        requires
            old(self).wf(),
            fb_new_line_pre(old(self)@),
        ensures
            final(self)@ == (FbState { mem: fb_scrolled(old(self)@.geom, old(self)@.mem), ..old(self)@ }),
    {
        let ghost orig = self.mem@;
        let ghost g = self.geom;
        proof {
            assert(g.pitch * CELL_HEIGHT <= g.pitch * g.rows * CELL_HEIGHT) by (nonlinear_arith)
                requires g.rows >= 1;
            lemma_text_bytes_fit(g);
        }
        let row_bytes = self.geom.pitch * CELL_HEIGHT;
        let total_bytes = self.geom.pitch * self.geom.rows * CELL_HEIGHT;
        let moved = total_bytes - row_bytes;
        let mut k: usize = 0;
        while k < moved
            invariant
                self.wf(),
                self.addr == old(self).addr,
                self.geom == g,
                self.font@ == old(self).font@,
                self.col == old(self).col,
                self.row == old(self).row,
                row_bytes == text_row_bytes(g),
                total_bytes == orig.len(),
                moved == total_bytes - row_bytes,
                k <= moved,
                self.mem@.len() == orig.len(),
                forall|j: int| 0 <= j < k ==> #[trigger] self.mem@[j] == orig[j + row_bytes],
                forall|j: int| k <= j < orig.len() ==> #[trigger] self.mem@[j] == orig[j],
            decreases moved - k,
        {
            let b = self.mem[k + row_bytes];
            self.mem.set(k, b);
            k = k + 1;
        }
        while k < total_bytes
            invariant
                self.wf(),
                self.addr == old(self).addr,
                self.geom == g,
                self.font@ == old(self).font@,
                self.col == old(self).col,
                self.row == old(self).row,
                row_bytes == text_row_bytes(g),
                total_bytes == orig.len(),
                moved == total_bytes - row_bytes,
                moved <= k <= total_bytes,
                self.mem@.len() == orig.len(),
                forall|j: int| 0 <= j < moved ==> #[trigger] self.mem@[j] == orig[j + row_bytes],
                forall|j: int| moved <= j < k ==> #[trigger] self.mem@[j] == 0u8,
            decreases total_bytes - k,
        {
            self.mem.set(k, 0);
            k = k + 1;
        }
        assert(self.mem@ =~= fb_scrolled(g, orig));
    }

    fn new_line(&mut self)
        requires
            old(self).wf(),
            fb_new_line_pre(old(self)@),
        ensures
            final(self).wf(),
            final(self)@ == fb_new_line_spec(old(self)@),
    {
        let mut row = self.row + 1;
        if row >= self.geom.rows {
            self.scroll_up();
            row = self.geom.rows - 1;
        }
        self.col = 0;
        self.row = row;
    }

    /// Writes one byte at the cursor as the print path does: a newline byte
    /// starts a new line, any other byte is drawn (wrapping first when the
    /// line is full).
    pub fn write_byte(&mut self, byte: u8)
        requires
            old(self).wf(),
            fb_write_byte_pre(old(self)@, byte),
        ensures
            final(self).wf(),
            final(self)@ == fb_write_byte_spec(old(self)@, byte),
    {
        if byte == NEWLINE {
            self.new_line();
            return;
        }
        let mut col = self.col;
        if col >= self.geom.cols {
            self.new_line();
            col = 0;
        }
        let row = self.row;
        let ghost before = self.mem@;
        self.draw_glyph(col, row, byte);
        proof {
            lemma_glyph_writes_len(self.geom, self.font@, before, col as int, row as int, byte, CELL_PIXELS as nat);
        }
        self.col = col + 1;
        self.row = row;
    }

    fn backspace(&mut self)
        requires
            old(self).wf(),
            fb_backspace_pre(old(self)@),
        ensures
            final(self).wf(),
            final(self)@ == fb_backspace_spec(old(self)@),
    {
        let col = self.col;
        let row = self.row;
        if col == 0 {
            return;
        }
        let col = col - 1;
        self.col = col;
        self.draw_glyph(col, row, SPACE);
        proof {
            lemma_glyph_writes_len(self.geom, self.font@, old(self)@.mem, col as int, row as int, SPACE, CELL_PIXELS as nat);
        }
    }

    /// Echoes a keystroke: newline, backspace (never into the row above) or a
    /// character.
    pub fn putc(&mut self, byte: u8)
        requires
            old(self).wf(),
            fb_putc_pre(old(self)@, byte),
        ensures
            final(self).wf(),
            final(self)@ == fb_putc_spec(old(self)@, byte),
    {
        if byte == NEWLINE {
            self.new_line();
        } else if byte == BACKSPACE {
            self.backspace();
        } else {
            self.write_byte(byte);
        }
    }

    /// Zeroes the text area and puts the cursor at the top left.
    pub fn clear_screen(&mut self)
        requires
            old(self).wf(),
        ensures
            final(self).wf(),
            final(self)@ == fb_cleared(old(self)@),
    {
        proof {
            lemma_text_bytes_fit(self.geom);
        }
        let total_bytes = self.geom.pitch * self.geom.rows * CELL_HEIGHT;
        let mut k: usize = 0;
        while k < total_bytes
            invariant
                self.wf(),
                self.addr == old(self).addr,
                self.geom == old(self).geom,
                self.font@ == old(self).font@,
                total_bytes == old(self)@.mem.len(),
                self.mem@.len() == total_bytes,
                k <= total_bytes,
                forall|j: int| 0 <= j < k ==> #[trigger] self.mem@[j] == 0u8,
            decreases total_bytes - k,
        {
            self.mem.set(k, 0);
            k = k + 1;
        }
        self.col = 0;
        self.row = 0;
        assert(self.mem@ =~= fb_cleared(old(self)@).mem);
    }

    /// Writes every byte of `bytes` in turn, as printing a string does.
    pub fn write_bytes(&mut self, bytes: &[u8])
        requires
            old(self).wf(),
            fb_write_bytes_pre(old(self)@, bytes@),
        ensures
            final(self).wf(),
            final(self)@ == fb_write_bytes_spec(old(self)@, bytes@),
    {
        let mut i: usize = 0;
        while i < bytes.len()
            invariant
                i <= bytes@.len(),
                self.wf(),
                fb_write_bytes_pre(old(self)@, bytes@),
                self@ == fb_write_bytes_spec(old(self)@, bytes@.take(i as int)),
            decreases bytes@.len() - i,
        {
            assert(bytes@.take(i as int + 1).drop_last() =~= bytes@.take(i as int));
            proof {
                lemma_write_bytes_pre_prefix(old(self)@, bytes@, i as int + 1);
            }
            self.write_byte(bytes[i]);
            i = i + 1;
        }
        assert(bytes@.take(bytes@.len() as int) =~= bytes@);
    }

    /// Writes a string, byte by byte.
    pub fn write_str(&mut self, s: &str)
        requires
            old(self).wf(),
            fb_write_bytes_pre(old(self)@, s.spec_bytes()),
        ensures
            final(self).wf(),
            final(self)@ == fb_write_bytes_spec(old(self)@, s.spec_bytes()),
    {
        self.write_bytes(s.as_bytes());
    }

    /// Whether a glyph can be drawn in cell (col, row) (see `fb_draw_pre`).
    fn can_draw(&self, col: usize, row: usize) -> (r: bool)
        requires
            self.wf(),
            col <= self@.geom.cols,
            row <= self@.geom.rows,
        ensures
            r == fb_draw_pre(self@, col as int, row as int),
    {
        let g = &self.geom;
        if g.red_size > 8 || g.green_size > 8 || g.blue_size > 8 {
            return false;
        }
        if g.red_pos >= 32 || g.green_pos >= 32 || g.blue_pos >= 32 || g.bytes_per_pixel > 4 {
            return false;
        }
        if g.bytes_per_pixel == 0 {
            return true;
        }
        proof {
            lemma_text_bytes_fit(*g);
            assert(col * CELL_WIDTH + CELL_WIDTH <= (g.cols + 1) * CELL_WIDTH) by (nonlinear_arith)
                requires col <= g.cols;
            assert(row * CELL_HEIGHT + CELL_HEIGHT <= (g.rows + 1) * CELL_HEIGHT) by (nonlinear_arith)
                requires row <= g.rows;
        }
        let total = g.pitch * g.rows * CELL_HEIGHT;
        let last_y = row * CELL_HEIGHT + CELL_HEIGHT - 1;
        let end_x = col * CELL_WIDTH + CELL_WIDTH;
        match last_y.checked_mul(g.pitch) {
            None => false,
            Some(a) => match end_x.checked_mul(g.bytes_per_pixel) {
                None => false,
                Some(b) => match a.checked_add(b) {
                    None => false,
                    Some(end) => end <= total,
                },
            },
        }
    }

    /// Whether `putc(byte)` may be called now (see `fb_putc_pre`): it
    /// neither overflows nor writes outside the text area.
    pub fn can_putc(&self, byte: u8) -> (r: bool)
        requires
            self.wf(),
        ensures
            r == fb_putc_pre(self@, byte),
    {
        if byte == NEWLINE {
            self.geom.rows >= 1
        } else if byte == BACKSPACE {
            self.col == 0 || self.can_draw(self.col - 1, self.row)
        } else if self.col >= self.geom.cols {
            if self.geom.rows < 1 {
                return false;
            }
            let row = if self.row + 1 >= self.geom.rows { self.geom.rows - 1 } else { self.row + 1 };
            self.can_draw(0, row)
        } else {
            self.can_draw(self.col, self.row)
        }
    }

    /// Physical address of the framebuffer the text area is shown at.
    pub fn address(&self) -> (a: u64)
        ensures
            a == self@.addr,
    {
        self.addr
    }

    /// The geometry the console draws with.
    pub fn geometry(&self) -> (g: FbGeometry)
        ensures
            g == self@.geom,
    {
        self.geom
    }

    /// The cursor: (column, row).
    pub fn cursor(&self) -> (c: (usize, usize))
        ensures
            c.0 == self@.col,
            c.1 == self@.row,
    {
        (self.col, self.row)
    }

    /// The text area's bytes, to copy to the hardware framebuffer.
    pub fn pixels(&self) -> (m: &[u8])
        ensures
            m@ == self@.mem,
    {
        self.mem.as_slice()
    }
}

/// The precondition of writing a byte string holds for each prefix.
proof fn lemma_write_bytes_pre_prefix(s: FbState, bytes: Seq<u8>, n: int)
    requires
        fb_write_bytes_pre(s, bytes),
        0 < n <= bytes.len(),
    ensures
        fb_write_byte_pre(fb_write_bytes_spec(s, bytes.take(n - 1)), bytes[n - 1]),
    decreases bytes.len(),
{
    if n == bytes.len() {
        assert(bytes.take(n - 1) =~= bytes.drop_last());
    } else {
        lemma_write_bytes_pre_prefix(s, bytes.drop_last(), n);
        assert(bytes.drop_last().take(n - 1) =~= bytes.take(n - 1));
    }
}

impl FbGeometry {
    /// The console's geometry for `info`; `None` when its text area does not
    /// fit in memory (see `geometry_fits`).
    pub fn from_info(info: &FramebufferInfo) -> (g: Option<FbGeometry>)
        ensures
            match g {
                Some(g) => g == geometry_of(*info) && geometry_fits(g),
                None => !geometry_fits(geometry_of(*info)),
            },
            g matches Some(g) ==> {
                &&& g.pitch == info.pitch
                &&& 8 * g.bytes_per_pixel >= info.bpp
                &&& 8 * (g.bytes_per_pixel - 1) < info.bpp || info.bpp == 0
                &&& 9 * g.cols <= info.width < 9 * (g.cols + 1)
                &&& 16 * g.rows <= info.height < 16 * (g.rows + 1)
            },
    {
        proof {
            lemma_geometry_of_info(*info);
        }
        let bytes_per_pixel = (info.bpp as usize + 7) / 8;
        let cols = info.width as usize / CELL_WIDTH;
        let rows = info.height as usize / CELL_HEIGHT;
        let pitch = info.pitch as usize;
        let g = FbGeometry {
            pitch,
            bytes_per_pixel,
            cols,
            rows,
            red_pos: info.red_pos,
            red_size: info.red_size,
            green_pos: info.green_pos,
            green_size: info.green_size,
            blue_pos: info.blue_pos,
            blue_size: info.blue_size,
        };
        assert(cols <= 0xFFFF_FFFF && rows <= 0xFFFF_FFFF);
        assert((cols + 1) * 9 <= 0x10_0000_0000) by (nonlinear_arith) requires cols <= 0xFFFF_FFFF;
        assert((rows + 1) * 16 <= 0x10_0000_0000) by (nonlinear_arith) requires rows <= 0xFFFF_FFFF;
        if (cols as u128 + 1) * (CELL_WIDTH as u128) > usize::MAX as u128 {
            return None;
        }
        if (rows as u128 + 1) * (CELL_HEIGHT as u128) > usize::MAX as u128 {
            return None;
        }
        assert(pitch * rows * 16 <= 0x1_0000_0000 * 0x1_0000_0000 * 16) by (nonlinear_arith)
            requires pitch <= 0x1_0000_0000, rows <= 0x1_0000_0000;
        let total = (pitch as u128) * (rows as u128) * (CELL_HEIGHT as u128);
        if total > usize::MAX as u128 {
            return None;
        }
        Some(g)
    }

    /// Whether every console operation can run on this geometry (see
    /// `geometry_drawable`).
    pub fn is_drawable(&self) -> (r: bool)
        ensures
            r == geometry_drawable(*self),
    {
        if self.red_size > 8 || self.green_size > 8 || self.blue_size > 8 {
            return false;
        }
        if self.red_pos >= 32 || self.green_pos >= 32 || self.blue_pos >= 32 {
            return false;
        }
        if self.bytes_per_pixel > 4 || self.cols < 1 || self.rows < 1 {
            return false;
        }
        assert(self.cols * 9 * self.bytes_per_pixel <= 0x1_0000_0000_0000_0000 * 36) by (nonlinear_arith)
            requires self.cols <= 0x1_0000_0000_0000_0000, self.bytes_per_pixel <= 4;
        (self.cols as u128) * (CELL_WIDTH as u128) * (self.bytes_per_pixel as u128) <= self.pitch as u128
    }
}

/// Sets up the console on the framebuffer that the boot information
/// `boot_info` describes, cleared, with the cursor at the top left. `None`
/// when no direct-RGB framebuffer is found, or when its text area does not
/// fit in memory.
pub fn init(boot_info: &[u8], font: Font) -> (r: Option<Framebuffer>)
    requires
        boot_framebuffer(boot_info@) is Some,
        font@.len() == FONT_ROWS,
    ensures
        match r {
            Some(fb) => {
                &&& boot_framebuffer(boot_info@)->0 matches Some(info)
                &&& geometry_fits(geometry_of(info))
                &&& fb.wf()
                &&& fb@ == (FbState {
                    addr: info.addr,
                    geom: geometry_of(info),
                    font: font@,
                    mem: Seq::new(text_bytes(geometry_of(info)) as nat, |k: int| 0u8),
                    col: 0,
                    row: 0,
                })
            },
            None => match boot_framebuffer(boot_info@)->0 {
                Some(info) => !geometry_fits(geometry_of(info)),
                None => true,
            },
        },
{
    let info = match find_framebuffer(boot_info) {
        Some(info) => info,
        None => return None,
    };
    match FbGeometry::from_info(&info) {
        Some(g) => Some(Framebuffer::new(info.addr, g, font)),
        None => None,
    }
}

/// Drawing a glyph never changes the size of the text area.
proof fn lemma_glyph_writes_len(g: FbGeometry, font: Seq<u16>, mem: Seq<u8>, col: int, row: int, byte: u8, n: nat)
    ensures
        glyph_writes(g, font, mem, col, row, byte, n).len() == mem.len(),
    decreases n,
{
    if n > 0 {
        lemma_glyph_writes_len(g, font, mem, col, row, byte, (n - 1) as nat);
    }
}

/// With zero-byte pixels, drawing a glyph writes nothing.
proof fn lemma_glyph_writes_nothing(g: FbGeometry, font: Seq<u16>, mem: Seq<u8>, col: int, row: int, byte: u8, n: nat)
    requires
        g.bytes_per_pixel == 0,
    ensures
        glyph_writes(g, font, mem, col, row, byte, n) == mem,
    decreases n,
{
    if n > 0 {
        lemma_glyph_writes_nothing(g, font, mem, col, row, byte, (n - 1) as nat);
        let prev = glyph_writes(g, font, mem, col, row, byte, (n - 1) as nat);
        assert(glyph_writes(g, font, mem, col, row, byte, n) =~= prev);
    }
}

/// On a drawable geometry, every cell of the screen lies in the text area.
proof fn lemma_drawable_cell_in_range(g: FbGeometry, col: int, row: int)
    requires
        geometry_drawable(g),
        0 <= col < g.cols,
        0 <= row < g.rows,
    ensures
        cell_in_range(g, col, row),
        g.bytes_per_pixel >= 1 ==> cell_fits_row(g, col),
{
    let b = g.bytes_per_pixel as int;
    let p = g.pitch as int;
    assert((col * 9 + 9) * b <= g.cols * 9 * b) by (nonlinear_arith)
        requires col + 1 <= g.cols, b >= 0;
    assert((row * 16 + 15) * p + p <= g.rows * 16 * p) by (nonlinear_arith)
        requires row + 1 <= g.rows, p >= 0;
    assert(text_bytes(g) == g.rows * 16 * p) by (nonlinear_arith)
        requires text_bytes(g) == p * g.rows * 16;
}

/// Every keystroke that may be made keeps the console well formed: the
/// cursor stays on the screen, the text area keeps its size, and the
/// address, geometry and font never change.
pub proof fn lemma_fb_operations_keep_wf(s: FbState, byte: u8)
    requires
        fb_wf(s),
    ensures
        fb_putc_pre(s, byte) ==> fb_wf(fb_putc_spec(s, byte)),
        fb_write_byte_pre(s, byte) ==> fb_wf(fb_write_byte_spec(s, byte)),
        fb_new_line_pre(s) ==> fb_wf(fb_new_line_spec(s)),
        fb_backspace_pre(s) ==> fb_wf(fb_backspace_spec(s)),
        fb_putc_spec(s, byte).addr == s.addr,
        fb_putc_spec(s, byte).geom == s.geom,
        fb_putc_spec(s, byte).font == s.font,
{
    let s1 = fb_new_line_spec(s);
    lemma_glyph_writes_len(s.geom, s.font, s.mem, s.col - 1, s.row, SPACE, CELL_PIXELS as nat);
    lemma_glyph_writes_len(s.geom, s.font, s.mem, s.col, s.row, byte, CELL_PIXELS as nat);
    lemma_glyph_writes_len(s1.geom, s1.font, s1.mem, s1.col, s1.row, byte, CELL_PIXELS as nat);
}

/// On a drawable geometry every keystroke and every printed byte may be
/// made, from every well-formed state.
pub proof fn lemma_drawable_allows_all(s: FbState, byte: u8)
    requires
        fb_wf(s),
        geometry_drawable(s.geom),
    ensures
        fb_putc_pre(s, byte),
        fb_write_byte_pre(s, byte),
{
    if s.col >= s.geom.cols {
        lemma_drawable_cell_in_range(s.geom, 0, fb_new_line_spec(s).row);
    } else {
        lemma_drawable_cell_in_range(s.geom, s.col, s.row);
    }
    if s.col > 0 {
        lemma_drawable_cell_in_range(s.geom, s.col - 1, s.row);
    }
}

/// On a drawable geometry any byte string may be printed.
pub proof fn lemma_drawable_allows_any_text(s: FbState, bytes: Seq<u8>)
    requires
        fb_wf(s),
        geometry_drawable(s.geom),
    ensures
        fb_write_bytes_pre(s, bytes),
        fb_wf(fb_write_bytes_spec(s, bytes)),
        fb_write_bytes_spec(s, bytes).geom == s.geom,
    decreases bytes.len(),
{
    if bytes.len() > 0 {
        lemma_drawable_allows_any_text(s, bytes.drop_last());
        let t = fb_write_bytes_spec(s, bytes.drop_last());
        lemma_drawable_allows_all(t, bytes.last());
        lemma_fb_operations_keep_wf(t, bytes.last());
    }
}

/// A glyph covers its whole cell: drawing a second glyph in the same cell
/// leaves no trace of the first.
pub proof fn lemma_glyph_covers_cell(s: FbState, col: int, row: int, first: u8, second: u8)
    requires
        0 <= col,
        0 <= row,
        cell_fits_row(s.geom, col) || s.geom.bytes_per_pixel == 0,
    ensures
        draw_glyph_spec(s.geom, s.font, draw_glyph_spec(s.geom, s.font, s.mem, col, row, first), col, row, second)
            == draw_glyph_spec(s.geom, s.font, s.mem, col, row, second),
{
    let m1 = draw_glyph_spec(s.geom, s.font, s.mem, col, row, first);
    if s.geom.bytes_per_pixel == 0 {
        lemma_glyph_writes_nothing(s.geom, s.font, s.mem, col, row, first, CELL_PIXELS as nat);
    } else {
        lemma_glyph_pixels(s.geom, s.font, s.mem, col, row, first);
        lemma_glyph_pixels(s.geom, s.font, m1, col, row, second);
        lemma_glyph_pixels(s.geom, s.font, s.mem, col, row, second);
        assert(glyph_image(s.geom, s.font, m1, col, row, second) =~= glyph_image(s.geom, s.font, s.mem, col, row, second));
    }
}

/// Drawing a glyph touches only its own cell: every byte of another cell
/// keeps its value.
pub proof fn lemma_glyph_stays_in_cell(s: FbState, col: int, row: int, byte: u8, k: int, other_col: int, other_row: int)
    requires
        0 <= col,
        0 <= row,
        cell_fits_row(s.geom, col) || s.geom.bytes_per_pixel == 0,
        0 <= k < s.mem.len(),
        in_cell(s.geom, k, other_col, other_row),
        other_col != col || other_row != row,
    ensures
        draw_glyph_spec(s.geom, s.font, s.mem, col, row, byte)[k] == s.mem[k],
{
    if s.geom.bytes_per_pixel == 0 {
        lemma_glyph_writes_nothing(s.geom, s.font, s.mem, col, row, byte, CELL_PIXELS as nat);
    } else {
        lemma_glyph_pixels(s.geom, s.font, s.mem, col, row, byte);
        let x = pixel_x(s.geom, k);
        let y = pixel_y(s.geom, k);
        if in_cell(s.geom, k, col, row) {
            if other_col != col {
                assert(false) by (nonlinear_arith)
                    requires col * 9 <= x < col * 9 + 9, other_col * 9 <= x < other_col * 9 + 9, other_col != col;
            } else {
                assert(false) by (nonlinear_arith)
                    requires row * 16 <= y < row * 16 + 16, other_row * 16 <= y < other_row * 16 + 16, other_row != row;
            }
        }
    }
}

/// Typing a character mid-line and then backspace puts the cursor back
/// where it was and leaves the cell showing a blank.
pub proof fn lemma_fb_type_then_erase(s: FbState, byte: u8)
    requires
        fb_wf(s),
        geometry_drawable(s.geom),
        s.col < s.geom.cols,
        byte != NEWLINE,
        byte != BACKSPACE,
    ensures
        fb_putc_spec(fb_putc_spec(s, byte), BACKSPACE) == (FbState {
            mem: draw_glyph_spec(s.geom, s.font, s.mem, s.col, s.row, SPACE),
            ..s
        }),
{
    lemma_drawable_cell_in_range(s.geom, s.col, s.row);
    lemma_glyph_covers_cell(s, s.col, s.row, byte, SPACE);
}

/// Backspace never crosses into the row above: the cursor stays on its row
/// and moves left by one unless already at the start.
pub proof fn lemma_fb_backspace_stays_on_row(s: FbState)
    ensures
        fb_backspace_spec(s).row == s.row,
        fb_backspace_spec(s).col == if s.col == 0 { 0 } else { s.col - 1 },
{
}

/// Scrolling moves every pixel up by exactly one text row: the byte that
/// lands at `k` is the same byte of the pixel one text row below.
pub proof fn lemma_scroll_moves_pixels_up(g: FbGeometry, mem: Seq<u8>, k: int)
    requires
        g.pitch > 0,
        0 <= k < mem.len() - text_row_bytes(g),
    ensures
        fb_scrolled(g, mem)[k] == mem[k + text_row_bytes(g)],
        pixel_x(g, k + text_row_bytes(g)) == pixel_x(g, k),
        pixel_byte(g, k + text_row_bytes(g)) == pixel_byte(g, k),
        pixel_y(g, k + text_row_bytes(g)) == pixel_y(g, k) + CELL_HEIGHT,
{
    let p = g.pitch as int;
    lemma_fundamental_div_mod(k, p);
    assert(0 <= k % p < p);
    assert(k + text_row_bytes(g) == (k / p + CELL_HEIGHT) * p + k % p) by (nonlinear_arith)
        requires k == p * (k / p) + k % p, text_row_bytes(g) == p * CELL_HEIGHT;
    lemma_fundamental_div_mod_converse(k + text_row_bytes(g), p, k / p + CELL_HEIGHT, k % p);
}

/// After scrolling, the last text row is blank.
pub proof fn lemma_scroll_blanks_last_row(g: FbGeometry, mem: Seq<u8>, k: int)
    requires
        0 <= k,
        mem.len() - text_row_bytes(g) <= k < mem.len(),
    ensures
        fb_scrolled(g, mem)[k] == 0,
{
}

/// On a framebuffer with the text-mode dimensions (80x25 cells), the pixel
/// console moves its cursor exactly as the VGA text console does, for every
/// keystroke.
pub proof fn lemma_cursor_agrees_with_vga(s: FbState, v: crate::vga::Screen, byte: u8)
    requires
        s.geom.cols == crate::vga::VGA_WIDTH,
        s.geom.rows == crate::vga::VGA_HEIGHT,
        s.col == v.col,
        s.row == v.row,
    ensures
        fb_putc_spec(s, byte).col == crate::vga::putc_spec(v, byte).col,
        fb_putc_spec(s, byte).row == crate::vga::putc_spec(v, byte).row,
{
}


/// The cell a keystroke draws a glyph in, if any.
pub open spec fn putc_drawn_cell(s: FbState, byte: u8) -> Option<(int, int)> {
    if byte == NEWLINE {
        None
    } else if byte == BACKSPACE {
        if s.col == 0 { None } else { Some((s.col - 1, s.row)) }
    } else if s.col >= s.geom.cols {
        Some((0, fb_new_line_spec(s).row))
    } else {
        Some((s.col, s.row))
    }
}

/// When a cell on a screen row is in range, every byte of every pixel its
/// glyph writes lies in the text area.
pub proof fn lemma_cell_writes_in_range(g: FbGeometry, col: int, row: int, n: int)
    requires
        0 <= col,
        0 <= row < g.rows,
        cell_in_range(g, col, row),
        0 <= n < CELL_PIXELS,
    ensures
        0 <= pixel_offset(g, col * CELL_WIDTH + n % (CELL_WIDTH as int), row * CELL_HEIGHT + n / (CELL_WIDTH as int)),
        pixel_offset(g, col * CELL_WIDTH + n % (CELL_WIDTH as int), row * CELL_HEIGHT + n / (CELL_WIDTH as int))
            + g.bytes_per_pixel <= text_bytes(g),
{
    let w = CELL_WIDTH as int;
    lemma_fundamental_div_mod(n, w);
    lemma_mod_bound(n, w);
    let dx = n % w;
    let dy = n / w;
    assert(0 <= dy < 16);
    let x = col * w + dx;
    let y = row * CELL_HEIGHT + dy;
    let p = g.pitch as int;
    let b = g.bytes_per_pixel as int;
    assert(0 <= y * p + x * b) by (nonlinear_arith) requires 0 <= x, 0 <= y, 0 <= p, 0 <= b;
    if b > 0 {
        assert(y * p + x * b + b <= (row * CELL_HEIGHT + CELL_HEIGHT - 1) * p + (col * CELL_WIDTH + CELL_WIDTH) * b)
            by (nonlinear_arith)
            requires y <= row * 16 + 15, x + 1 <= col * 9 + 9, p >= 0, b >= 0;
    } else {
        assert(x * b == 0) by (nonlinear_arith) requires b == 0;
        assert(y * p <= text_bytes(g)) by (nonlinear_arith)
            requires y < g.rows * 16, 0 <= y, p >= 0, text_bytes(g) == p * g.rows * 16;
    }
}

/// On a drawable geometry, from a cursor on the screen, every keystroke may
/// be made, every byte it writes lies in the text area, and the cursor
/// stays on the screen.
pub proof fn lemma_fb_putc_in_bounds(s: FbState, byte: u8, n: int)
    requires
        fb_wf(s),
        geometry_drawable(s.geom),
        s.col <= s.geom.cols,
        s.row < s.geom.rows,
        0 <= n < CELL_PIXELS,
    ensures
        fb_putc_pre(s, byte),
        putc_drawn_cell(s, byte) matches Some((c, r)) ==> {
            let off = pixel_offset(s.geom, c * CELL_WIDTH + n % (CELL_WIDTH as int), r * CELL_HEIGHT + n / (CELL_WIDTH as int));
            0 <= off && off + s.geom.bytes_per_pixel <= text_bytes(s.geom)
        },
        fb_wf(fb_putc_spec(s, byte)),
        fb_putc_spec(s, byte).col <= s.geom.cols,
        fb_putc_spec(s, byte).row < s.geom.rows,
        fb_putc_spec(s, byte).mem.len() == s.mem.len(),
{
    lemma_drawable_allows_all(s, byte);
    lemma_fb_operations_keep_wf(s, byte);
    match putc_drawn_cell(s, byte) {
        Some((c, r)) => {
            assert(0 <= c && 0 <= r);
            assert(cell_in_range(s.geom, c, r));
            assert(r < s.geom.rows);
            lemma_cell_writes_in_range(s.geom, c, r, n);
        },
        None => {},
    }
}


/// The console's geometry keeps the framebuffer's pitch and channel layout,
/// rounds bits per pixel up to whole bytes, and takes as many whole 9x16
/// cells as fit in the width and height.
pub proof fn lemma_geometry_of_info(info: FramebufferInfo)
    ensures
        ({
            let g = geometry_of(info);
            &&& g.pitch == info.pitch
            &&& 8 * g.bytes_per_pixel >= info.bpp
            &&& 8 * (g.bytes_per_pixel - 1) < info.bpp || g.bytes_per_pixel == 0
            &&& (g.bytes_per_pixel == 0 <==> info.bpp == 0)
            &&& 9 * g.cols <= info.width < 9 * (g.cols + 1)
            &&& 16 * g.rows <= info.height < 16 * (g.rows + 1)
            &&& g.red_pos == info.red_pos && g.red_size == info.red_size
            &&& g.green_pos == info.green_pos && g.green_size == info.green_size
            &&& g.blue_pos == info.blue_pos && g.blue_size == info.blue_size
        }),
{
}


/// The foreground or background colour of pixel (dx, dy) of the glyph for
/// `byte`, read straight from the font: bit `dx` of the glyph's row `dy`.
pub open spec fn font_pixel_color(g: FbGeometry, font: Seq<u16>, byte: u8, dx: int, dy: int) -> u32 {
    if (font[byte * 16 + dy] >> (dx as u16)) & 1u16 != 0 {
        pack_color_spec(g, 0xFF, 0xFF, 0xFF)
    } else {
        pack_color_spec(g, 0, 0, 0)
    }
}

/// Drawing the glyph for `byte` in cell (col, row), with the cell's pixels
/// inside their pixel rows, sets byte `i` of pixel (col*9 + dx, row*16 + dy)
/// to byte `i` of white where bit `dx` of the font's row `byte*16 + dy` is
/// set and of black where it is clear.
pub proof fn lemma_glyph_reads_font(
    g: FbGeometry,
    font: Seq<u16>,
    mem: Seq<u8>,
    col: int,
    row: int,
    byte: u8,
    dx: int,
    dy: int,
    i: int,
)
    requires
        0 <= col,
        0 <= row,
        cell_fits_row(g, col),
        0 <= dx < 9,
        0 <= dy < 16,
        0 <= i < g.bytes_per_pixel,
        0 <= (row * 16 + dy) * g.pitch + (col * 9 + dx) * g.bytes_per_pixel + i < mem.len(),
    ensures
        draw_glyph_spec(g, font, mem, col, row, byte)[(row * 16 + dy) * g.pitch + (col * 9 + dx) * g.bytes_per_pixel + i]
            == color_byte(font_pixel_color(g, font, byte, dx, dy), i),
{
    let x = col * 9 + dx;
    let y = row * 16 + dy;
    assert(x * g.bytes_per_pixel + g.bytes_per_pixel <= g.pitch) by (nonlinear_arith)
        requires x <= col * 9 + 8, (col * 9 + 9) * g.bytes_per_pixel <= g.pitch, g.bytes_per_pixel >= 1;
    assert(g.pitch > 0) by (nonlinear_arith)
        requires (col * 9 + 9) * g.bytes_per_pixel <= g.pitch, g.bytes_per_pixel >= 1, col >= 0;
    lemma_pixel_decode(g, x, y, i);
    lemma_glyph_pixels(g, font, mem, col, row, byte);
}

/// Typing a character mid-line on a drawable screen draws that character's
/// own glyph from the font in the cursor's cell and moves the cursor right:
/// byte `i` of pixel (col*9 + dx, row*16 + dy) becomes byte `i` of white
/// where bit `dx` of font row `byte*16 + dy` is set and of black where it is
/// clear.
pub proof fn lemma_fb_putc_draws_font_glyph(s: FbState, byte: u8, dx: int, dy: int, i: int)
    requires
        fb_wf(s),
        geometry_drawable(s.geom),
        s.col < s.geom.cols,
        s.row < s.geom.rows,
        byte != NEWLINE,
        byte != BACKSPACE,
        0 <= dx < 9,
        0 <= dy < 16,
        0 <= i < s.geom.bytes_per_pixel,
    ensures
        fb_putc_spec(s, byte).col == s.col + 1,
        fb_putc_spec(s, byte).row == s.row,
        fb_putc_spec(s, byte).mem[(s.row * 16 + dy) * s.geom.pitch + (s.col * 9 + dx) * s.geom.bytes_per_pixel + i]
            == color_byte(font_pixel_color(s.geom, s.font, byte, dx, dy), i),
{
    lemma_drawable_cell_in_range(s.geom, s.col, s.row);
    let n = dy * 9 + dx;
    lemma_fundamental_div_mod_converse(n, 9, dy, dx);
    lemma_cell_writes_in_range(s.geom, s.col, s.row, n);
    lemma_glyph_reads_font(s.geom, s.font, s.mem, s.col, s.row, byte, dx, dy, i);
}

/// Packing into the common 32-bit layout (red in bits 16-23, green in 8-15,
/// blue in 0-7) places each channel whole in its byte; packing into the
/// 16-bit 5-6-5 layout keeps the top five, six and five bits of red, green
/// and blue at bits 11-15, 5-10 and 0-4.
pub proof fn lemma_pack_color_layouts(g: FbGeometry, r: u8, gr: u8, b: u8)
    ensures
        (g.red_pos == 16 && g.red_size == 8 && g.green_pos == 8 && g.green_size == 8
            && g.blue_pos == 0 && g.blue_size == 8) ==> pack_color_spec(g, r, gr, b) == r * 0x1_0000 + gr * 0x100 + b,
        (g.red_pos == 11 && g.red_size == 5 && g.green_pos == 5 && g.green_size == 6
            && g.blue_pos == 0 && g.blue_size == 5) ==> pack_color_spec(g, r, gr, b)
            == (r / 8) * 0x800 + (gr / 4) * 0x20 + b / 8,
{
    if g.red_pos == 16 && g.red_size == 8 && g.green_pos == 8 && g.green_size == 8 && g.blue_pos == 0 && g.blue_size == 8 {
        assert(((r as u32) >> 0u32) << 16u32 | ((gr as u32) >> 0u32) << 8u32 | ((b as u32) >> 0u32) << 0u32
            == r * 0x1_0000 + gr * 0x100 + b) by (bit_vector);
    }
    if g.red_pos == 11 && g.red_size == 5 && g.green_pos == 5 && g.green_size == 6 && g.blue_pos == 0 && g.blue_size == 5 {
        assert(((r as u32) >> 3u32) << 11u32 | ((gr as u32) >> 2u32) << 5u32 | ((b as u32) >> 3u32) << 0u32
            == (r / 8) * 0x800 + (gr / 4) * 0x20 + b / 8) by (bit_vector);
    }
}

/// The bytes a pixel is written as are its colour in little-endian order:
/// the four bytes put back together give the colour.
pub proof fn lemma_color_bytes_little_endian(color: u32)
    ensures
        color == color_byte(color, 0) + color_byte(color, 1) * 0x100 + color_byte(color, 2) * 0x1_0000
            + color_byte(color, 3) * 0x100_0000,
{
    assert(color == ((color >> 0u32) & 0xFF) as u8 + (((color >> 8u32) & 0xFF) as u8) * 0x100
        + (((color >> 16u32) & 0xFF) as u8) * 0x1_0000 + (((color >> 24u32) & 0xFF) as u8) * 0x100_0000) by (bit_vector);
}

/// A newline on the framebuffer console moves to the start of the next text
/// row; on the last row every pixel row first moves up one text row (sixteen
/// pixel rows) and the bottom text row becomes black.
pub proof fn lemma_fb_new_line_effect(s: FbState)
    requires
        fb_wf(s),
        s.geom.rows >= 1,
        s.row < s.geom.rows,
    ensures
        ({
            let t = fb_new_line_spec(s);
            &&& t.col == 0
            &&& t.mem.len() == s.mem.len()
            &&& s.row + 1 < s.geom.rows ==> t.row == s.row + 1 && t.mem == s.mem
            &&& s.row + 1 == s.geom.rows ==> {
                &&& t.row == s.row
                &&& forall|k: int| 0 <= k < s.mem.len() ==> #[trigger] t.mem[k] == (
                    if k + s.geom.pitch * 16 < s.mem.len() { s.mem[k + s.geom.pitch * 16] } else { 0u8 })
            }
        }),
{
}

/// Writing a character on a full line is the same as starting a new line
/// (scrolling on the last row) and then writing it at the start of that
/// line.
pub proof fn lemma_fb_full_line_wraps(s: FbState, byte: u8)
    requires
        s.geom.cols >= 1,
        s.col >= s.geom.cols,
        byte != NEWLINE,
    ensures
        fb_write_byte_spec(s, byte) == fb_write_byte_spec(fb_new_line_spec(s), byte),
        fb_new_line_spec(s).col == 0,
{
}
} // verus!
