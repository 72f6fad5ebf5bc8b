use unikernel::interrupts::PortWrite;
use unikernel::vga::{VgaConsole, COLOR_WHITE_ON_BLACK, VGA_BUFFER_BYTES, VGA_HEIGHT, VGA_WIDTH};

fn row_text(c: &VgaConsole, row: usize) -> Vec<u8> {
    (0..VGA_WIDTH).map(|col| c.cell(col, row).0).collect()
}

#[test]
fn new_console_is_blank() {
    let c = VgaConsole::new();
    assert_eq!(c.cursor(), (0, 0));
    assert_eq!(c.buffer().len(), VGA_BUFFER_BYTES);
    for i in 0..VGA_BUFFER_BYTES {
        let want = if i % 2 == 0 { b' ' } else { COLOR_WHITE_ON_BLACK };
        assert_eq!(c.buffer()[i], want);
    }
}

#[test]
fn putc_writes_character_and_advances() {
    let mut c = VgaConsole::new();
    c.putc(b'h');
    c.putc(b'i');
    assert_eq!(c.cursor(), (2, 0));
    assert_eq!(c.cell(0, 0), (b'h', COLOR_WHITE_ON_BLACK));
    assert_eq!(c.cell(1, 0), (b'i', COLOR_WHITE_ON_BLACK));
    assert_eq!(c.buffer()[0], b'h');
    assert_eq!(c.buffer()[2], b'i');
}

#[test]
fn newline_moves_to_next_row_start() {
    let mut c = VgaConsole::new();
    c.putc(b'a');
    c.putc(b'\n');
    assert_eq!(c.cursor(), (0, 1));
    c.putc(b'b');
    assert_eq!(c.cell(0, 1).0, b'b');
    assert_eq!(c.cell(0, 0).0, b'a');
}

#[test]
fn full_line_wraps_before_next_character() {
    let mut c = VgaConsole::new();
    for _ in 0..VGA_WIDTH {
        c.write_byte(b'x');
    }
    assert_eq!(c.cursor(), (VGA_WIDTH, 0));
    c.write_byte(b'y');
    assert_eq!(c.cursor(), (1, 1));
    assert_eq!(c.cell(0, 1).0, b'y');
    assert_eq!(c.cell(VGA_WIDTH - 1, 0).0, b'x');
}

#[test]
fn backspace_erases_previous_cell() {
    let mut c = VgaConsole::new();
    c.putc(b'a');
    c.putc(b'b');
    c.putc(0x08);
    assert_eq!(c.cursor(), (1, 0));
    assert_eq!(c.cell(1, 0), (b' ', COLOR_WHITE_ON_BLACK));
    assert_eq!(c.cell(0, 0).0, b'a');
}

#[test]
fn backspace_never_crosses_into_row_above() {
    let mut c = VgaConsole::new();
    c.putc(b'a');
    c.putc(b'\n');
    c.putc(0x08);
    assert_eq!(c.cursor(), (0, 1));
    assert_eq!(c.cell(0, 0).0, b'a');
}

#[test]
fn newline_on_last_row_scrolls() {
    let mut c = VgaConsole::new();
    c.write_str("first\n");
    for _ in 1..VGA_HEIGHT - 1 {
        c.putc(b'\n');
    }
    c.write_str("last");
    assert_eq!(c.cursor(), (4, VGA_HEIGHT - 1));
    c.putc(b'\n');
    assert_eq!(c.cursor(), (0, VGA_HEIGHT - 1));
    assert_eq!(&row_text(&c, VGA_HEIGHT - 2)[..4], b"last");
    assert_eq!(row_text(&c, VGA_HEIGHT - 1), vec![b' '; VGA_WIDTH]);
    assert_eq!(row_text(&c, 0), vec![b' '; VGA_WIDTH]);
    for col in 0..VGA_WIDTH {
        assert_eq!(c.cell(col, VGA_HEIGHT - 1).1, COLOR_WHITE_ON_BLACK);
    }
}

#[test]
fn print_path_draws_backspace_byte() {
    let mut c = VgaConsole::new();
    c.write_bytes(&[b'a', 0x08]);
    assert_eq!(c.cursor(), (2, 0));
    assert_eq!(c.cell(1, 0).0, 0x08);
}

#[test]
fn clear_screen_blanks_and_homes() {
    let mut c = VgaConsole::new();
    c.write_str("hello\nworld");
    c.clear_screen();
    assert_eq!(c.cursor(), (0, 0));
    assert_eq!(row_text(&c, 0), vec![b' '; VGA_WIDTH]);
    assert_eq!(row_text(&c, 1), vec![b' '; VGA_WIDTH]);
}

#[test]
fn hardware_cursor_writes_linear_position() {
    let mut c = VgaConsole::new();
    let w = c.cursor_port_writes();
    assert_eq!(
        w,
        vec![
            PortWrite { port: 0x3D4, value: 0x0F },
            PortWrite { port: 0x3D5, value: 0 },
            PortWrite { port: 0x3D4, value: 0x0E },
            PortWrite { port: 0x3D5, value: 0 },
        ]
    );
    for _ in 0..4 {
        c.putc(b'\n');
    }
    c.write_str("abcde");
    // row 4, column 5: position 325 = 0x145
    let w = c.cursor_port_writes();
    assert_eq!(w[1], PortWrite { port: 0x3D5, value: 0x45 });
    assert_eq!(w[3], PortWrite { port: 0x3D5, value: 0x01 });
}
