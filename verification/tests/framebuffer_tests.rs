use unikernel::framebuffer::{init, pack_color, FbGeometry, Font, Framebuffer, CELL_HEIGHT, CELL_WIDTH, FONT_ROWS};
use unikernel::multiboot2::FramebufferInfo;
use unikernel::vga::{VgaConsole, VGA_HEIGHT, VGA_WIDTH};

const PITCH: usize = 2 * 9 * 4;

fn geom() -> FbGeometry {
    FbGeometry {
        pitch: PITCH,
        bytes_per_pixel: 4,
        cols: 2,
        rows: 2,
        red_pos: 16,
        red_size: 8,
        green_pos: 8,
        green_size: 8,
        blue_pos: 0,
        blue_size: 8,
    }
}

/// Glyph 'A' has its top-left and bottom-right pixels set; glyph 'B' its
/// whole first row; every other glyph is empty.
fn font() -> Font {
    let mut rows = vec![0u16; FONT_ROWS];
    rows[b'A' as usize * 16] = 1;
    rows[b'A' as usize * 16 + 15] = 1 << 8;
    rows[b'B' as usize * 16] = 0x1FF;
    Font::new(rows).unwrap()
}

fn pixel(fb: &Framebuffer, x: usize, y: usize) -> [u8; 4] {
    let off = y * PITCH + x * 4;
    let p = fb.pixels();
    [p[off], p[off + 1], p[off + 2], p[off + 3]]
}

const WHITE: [u8; 4] = [0xFF, 0xFF, 0xFF, 0x00];
const BLACK: [u8; 4] = [0, 0, 0, 0];

#[test]
fn font_needs_every_glyph() {
    assert!(Font::new(vec![0u16; 100]).is_none());
    assert!(Font::new(vec![0u16; FONT_ROWS]).is_some());
}

#[test]
fn pack_color_follows_channel_layout() {
    let g = geom();
    assert_eq!(pack_color(&g, 0xFF, 0xFF, 0xFF), 0x00FF_FFFF);
    assert_eq!(pack_color(&g, 0x12, 0x34, 0x56), 0x0012_3456);
    let rgb565 = FbGeometry {
        pitch: 36,
        bytes_per_pixel: 2,
        cols: 2,
        rows: 1,
        red_pos: 11,
        red_size: 5,
        green_pos: 5,
        green_size: 6,
        blue_pos: 0,
        blue_size: 5,
    };
    assert_eq!(pack_color(&rgb565, 0xFF, 0xFF, 0xFF), 0xFFFF);
    assert_eq!(pack_color(&rgb565, 0x80, 0x40, 0x20), 0x8204);
    assert_eq!(pack_color(&rgb565, 0, 0, 0), 0);
}

fn info(bpp: u8, width: u32, height: u32, pitch: u32) -> FramebufferInfo {
    FramebufferInfo {
        addr: 0xFD00_0000,
        pitch,
        width,
        height,
        bpp,
        red_pos: 16,
        red_size: 8,
        green_pos: 8,
        green_size: 8,
        blue_pos: 0,
        blue_size: 8,
    }
}

#[test]
fn geometry_from_boot_info() {
    let g = FbGeometry::from_info(&info(32, 1024, 768, 4096)).unwrap();
    assert_eq!(g.bytes_per_pixel, 4);
    assert_eq!(g.cols, 113);
    assert_eq!(g.rows, 48);
    assert_eq!(g.pitch, 4096);
    let g = FbGeometry::from_info(&info(15, 640, 480, 1280)).unwrap();
    assert_eq!(g.bytes_per_pixel, 2);
    assert_eq!(g.cols, 71);
    assert_eq!(g.rows, 30);
}

#[test]
fn any_geometry_that_fits_is_accepted() {
    let g = FbGeometry::from_info(&info(0, 1024, 768, 4096)).unwrap();
    assert_eq!(g.bytes_per_pixel, 0);
    let g = FbGeometry::from_info(&info(32, 8, 15, 4096)).unwrap();
    assert_eq!((g.cols, g.rows), (0, 0));
    assert!(!g.is_drawable());
}

#[test]
fn drawable_geometries() {
    assert!(FbGeometry::from_info(&info(32, 1024, 768, 4096)).unwrap().is_drawable());
    assert!(FbGeometry::from_info(&info(0, 1024, 768, 4096)).unwrap().is_drawable());
    assert!(!FbGeometry::from_info(&info(64, 1024, 768, 8192)).unwrap().is_drawable());
    assert!(!FbGeometry::from_info(&info(32, 8, 768, 4096)).unwrap().is_drawable());
    assert!(!FbGeometry::from_info(&info(32, 1024, 15, 4096)).unwrap().is_drawable());
    assert!(!FbGeometry::from_info(&info(32, 1024, 768, 1024)).unwrap().is_drawable());
    let mut wide = info(32, 1024, 768, 4096);
    wide.red_size = 9;
    assert!(!FbGeometry::from_info(&wide).unwrap().is_drawable());
    let mut high = info(32, 1024, 768, 4096);
    high.blue_pos = 32;
    assert!(!FbGeometry::from_info(&high).unwrap().is_drawable());
    assert!(geom().is_drawable());
}

#[test]
fn new_console_is_black() {
    let fb = Framebuffer::new(0xFD00_0000, geom(), font());
    assert_eq!(fb.pixels().len(), PITCH * 2 * CELL_HEIGHT);
    assert!(fb.pixels().iter().all(|&b| b == 0));
    assert_eq!(fb.cursor(), (0, 0));
    assert_eq!(fb.geometry(), geom());
}

#[test]
fn glyph_pixels_follow_font_bits() {
    let mut fb = Framebuffer::new(0xFD00_0000, geom(), font());
    fb.putc(b'A');
    assert_eq!(fb.cursor(), (1, 0));
    assert_eq!(pixel(&fb, 0, 0), WHITE);
    assert_eq!(pixel(&fb, 1, 0), BLACK);
    assert_eq!(pixel(&fb, 8, 15), WHITE);
    assert_eq!(pixel(&fb, 7, 15), BLACK);
    fb.putc(b'B');
    for x in CELL_WIDTH..2 * CELL_WIDTH {
        assert_eq!(pixel(&fb, x, 0), WHITE);
        assert_eq!(pixel(&fb, x, 1), BLACK);
    }
    assert_eq!(pixel(&fb, 0, 0), WHITE);
}

#[test]
fn backspace_redraws_blank_cell() {
    let mut fb = Framebuffer::new(0xFD00_0000, geom(), font());
    fb.putc(b'A');
    fb.putc(0x08);
    assert_eq!(fb.cursor(), (0, 0));
    assert!(fb.pixels().iter().all(|&b| b == 0));
    fb.putc(0x08);
    assert_eq!(fb.cursor(), (0, 0));
}

#[test]
fn wrap_and_scroll() {
    let mut fb = Framebuffer::new(0xFD00_0000, geom(), font());
    fb.write_str("AB");
    assert_eq!(fb.cursor(), (2, 0));
    fb.write_byte(b'B');
    assert_eq!(fb.cursor(), (1, 1));
    assert_eq!(pixel(&fb, 3, 16), WHITE);
    fb.putc(b'\n');
    assert_eq!(fb.cursor(), (0, 1));
    // The second text row moved up; the last one is blank.
    assert_eq!(pixel(&fb, 3, 0), WHITE);
    assert_eq!(pixel(&fb, 0, 0), WHITE);
    assert_eq!(pixel(&fb, 0, 1), BLACK);
    assert!(fb.pixels()[PITCH * CELL_HEIGHT..].iter().all(|&b| b == 0));
}

#[test]
fn clear_screen_zeroes_text_area() {
    let mut fb = Framebuffer::new(0xFD00_0000, geom(), font());
    fb.write_str("AB\nB");
    fb.clear_screen();
    assert_eq!(fb.cursor(), (0, 0));
    assert!(fb.pixels().iter().all(|&b| b == 0));
}

fn push_u32(v: &mut Vec<u8>, x: u32) {
    v.extend_from_slice(&x.to_le_bytes());
}

fn boot_info(fb_type: u8, width: u32) -> Vec<u8> {
    let mut v = Vec::new();
    push_u32(&mut v, 8 + 40 + 8);
    push_u32(&mut v, 0);
    push_u32(&mut v, 8);
    push_u32(&mut v, 38);
    v.extend_from_slice(&0xFD00_0000u64.to_le_bytes());
    push_u32(&mut v, PITCH as u32);
    push_u32(&mut v, width);
    push_u32(&mut v, 40);
    v.push(32);
    v.push(fb_type);
    v.extend_from_slice(&[0, 0, 16, 8, 8, 8, 0, 8, 0, 0]);
    push_u32(&mut v, 0);
    push_u32(&mut v, 8);
    v
}

#[test]
fn init_sets_up_cleared_console() {
    let fb = init(&boot_info(1, 18), font()).unwrap();
    assert_eq!(fb.geometry(), geom());
    assert_eq!(fb.address(), 0xFD00_0000);
    assert_eq!(fb.cursor(), (0, 0));
    assert!(fb.pixels().iter().all(|&b| b == 0));
}

#[test]
fn init_without_rgb_framebuffer() {
    assert!(init(&boot_info(2, 18), font()).is_none());
}

#[test]
fn init_keeps_reported_geometry() {
    let fb = init(&boot_info(1, 27), font()).unwrap();
    assert_eq!(fb.geometry().cols, 3);
    assert!(!fb.geometry().is_drawable());
    let fb = init(&boot_info(1, 4), font()).unwrap();
    assert_eq!(fb.geometry().cols, 0);
    assert_eq!(fb.cursor(), (0, 0));
    assert_eq!(fb.address(), 0xFD00_0000);
}

#[test]
fn zero_byte_pixels_draw_nothing() {
    let mut boot = boot_info(1, 18);
    boot[36] = 0;
    let mut fb = init(&boot, font()).unwrap();
    assert_eq!(fb.geometry().bytes_per_pixel, 0);
    fb.write_str("AB");
    assert_eq!(fb.cursor(), (2, 0));
    fb.putc(0x08);
    assert_eq!(fb.cursor(), (1, 0));
    assert!(fb.pixels().iter().all(|&b| b == 0));
}

#[test]
fn second_glyph_replaces_first() {
    let mut fb = Framebuffer::new(0xFD00_0000, geom(), font());
    fb.putc(b'B');
    fb.putc(0x08);
    fb.putc(b'A');
    assert_eq!(pixel(&fb, 0, 0), WHITE);
    for x in 1..CELL_WIDTH {
        assert_eq!(pixel(&fb, x, 0), BLACK);
    }
    assert_eq!(pixel(&fb, 8, 15), WHITE);
}

#[test]
fn framebuffer_and_vga_cursors_agree() {
    let g = FbGeometry {
        pitch: VGA_WIDTH * CELL_WIDTH,
        bytes_per_pixel: 1,
        cols: VGA_WIDTH,
        rows: VGA_HEIGHT,
        red_pos: 5,
        red_size: 3,
        green_pos: 2,
        green_size: 3,
        blue_pos: 0,
        blue_size: 2,
    };
    let mut fb = Framebuffer::new(0xFD00_0000, g, font());
    let mut vga = VgaConsole::new();
    let mut keys: Vec<u8> = Vec::new();
    for i in 0..300u32 {
        keys.push(match i % 37 {
            0 => b'\n',
            5 | 6 => 0x08,
            _ => b'A' + (i % 26) as u8,
        });
    }
    keys.extend(std::iter::repeat(b'x').take(200));
    for k in keys {
        fb.putc(k);
        vga.putc(k);
        assert_eq!(fb.cursor(), vga.cursor());
    }
}

#[test]
fn can_putc_tells_when_a_keystroke_fits() {
    let mut fb = Framebuffer::new(0xFD00_0000, geom(), font());
    assert!(fb.can_putc(b'A'));
    assert!(fb.can_putc(0x08));
    assert!(fb.can_putc(b'\n'));
    let narrow = FbGeometry { cols: 3, ..geom() };
    let mut n = Framebuffer::new(0xFD00_0000, narrow, font());
    assert!(n.can_putc(b'A'));
    n.putc(b'A');
    n.putc(b'A');
    assert!(n.can_putc(b'A'));
    n.putc(b'A');
    // The third column's pixels spill past the pitch; on the last pixel
    // row of the screen they would run past the text area.
    n.putc(b'\n');
    assert_eq!(n.cursor(), (0, 1));
    n.putc(b'A');
    n.putc(b'A');
    assert!(!n.can_putc(b'A'));
    let bad = FbGeometry { red_size: 9, ..geom() };
    let b = Framebuffer::new(0, bad, font());
    assert!(!b.can_putc(b'A'));
    assert!(b.can_putc(b'\n'));
    fb.putc(b'A');
    assert!(fb.can_putc(0x08));
}
