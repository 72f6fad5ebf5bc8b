use unikernel::multiboot2::{find_framebuffer, tag_walk_ends, FramebufferInfo};

fn push_u32(v: &mut Vec<u8>, x: u32) {
    v.extend_from_slice(&x.to_le_bytes());
}

fn framebuffer_tag(fb_type: u8) -> Vec<u8> {
    let mut t = Vec::new();
    push_u32(&mut t, 8);
    push_u32(&mut t, 38);
    t.extend_from_slice(&0xFD00_0000u64.to_le_bytes());
    push_u32(&mut t, 4096);
    push_u32(&mut t, 1024);
    push_u32(&mut t, 768);
    t.push(32);
    t.push(fb_type);
    t.extend_from_slice(&[0, 0]);
    t.extend_from_slice(&[16, 8, 8, 8, 0, 8]);
    t
}

fn boot_info(tags: &[Vec<u8>]) -> Vec<u8> {
    let mut body = Vec::new();
    for t in tags {
        body.extend_from_slice(t);
        while body.len() % 8 != 0 {
            body.push(0);
        }
    }
    let mut v = Vec::new();
    push_u32(&mut v, (8 + body.len() + 8) as u32);
    push_u32(&mut v, 0);
    v.extend_from_slice(&body);
    push_u32(&mut v, 0);
    push_u32(&mut v, 8);
    v
}

fn other_tag(ty: u32, size: u32) -> Vec<u8> {
    let mut t = Vec::new();
    push_u32(&mut t, ty);
    push_u32(&mut t, size);
    t.resize(size as usize, 0xAA);
    t
}

fn expected() -> FramebufferInfo {
    FramebufferInfo {
        addr: 0xFD00_0000,
        pitch: 4096,
        width: 1024,
        height: 768,
        bpp: 32,
        red_pos: 16,
        red_size: 8,
        green_pos: 8,
        green_size: 8,
        blue_pos: 0,
        blue_size: 8,
    }
}

#[test]
fn finds_rgb_framebuffer_after_other_tags() {
    let info = boot_info(&[other_tag(1, 9), other_tag(4, 16), framebuffer_tag(1)]);
    assert!(tag_walk_ends(&info));
    assert_eq!(find_framebuffer(&info), Some(expected()));
}

#[test]
fn non_rgb_framebuffer_is_rejected() {
    let info = boot_info(&[framebuffer_tag(2)]);
    assert_eq!(find_framebuffer(&info), None);
}

#[test]
fn end_tag_stops_the_walk() {
    let info = boot_info(&[]);
    assert_eq!(find_framebuffer(&info), None);
    let info = boot_info(&[other_tag(0, 8), framebuffer_tag(1)]);
    assert_eq!(find_framebuffer(&info), None);
}

#[test]
fn total_size_bounds_the_walk() {
    let mut info = boot_info(&[other_tag(1, 8), framebuffer_tag(1)]);
    info[0..4].copy_from_slice(&16u32.to_le_bytes());
    assert_eq!(find_framebuffer(&info), None);
}

#[test]
fn truncated_tag_is_not_read() {
    let info = boot_info(&[framebuffer_tag(1)]);
    let cut = &info[..30];
    assert_eq!(find_framebuffer(cut), None);
    assert_eq!(find_framebuffer(&info[..3]), None);
}

#[test]
fn zero_sized_tag_never_ends() {
    let info = boot_info(&[other_tag(3, 8), framebuffer_tag(1)]);
    let mut bad = info.clone();
    bad[12..16].copy_from_slice(&0u32.to_le_bytes());
    assert!(!tag_walk_ends(&bad));
    assert!(tag_walk_ends(&info));
}
