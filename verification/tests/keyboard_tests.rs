use unikernel::interrupts::{Idt, IdtEntry};
use unikernel::keyboard::{install, keyboard_isr_rust, read_line, scancode_to_ascii, LineEditor, LINE_BUF_SIZE};
use unikernel::vga::VgaConsole;

const KEY_H: u8 = 0x23;
const KEY_I: u8 = 0x17;
const KEY_ENTER: u8 = 0x1C;
const KEY_BACKSPACE: u8 = 0x0E;
const KEY_SPACE: u8 = 0x39;
const KEY_1: u8 = 0x02;

#[test]
fn scancode_table() {
    assert_eq!(scancode_to_ascii(0x1E), Some(b'a'));
    assert_eq!(scancode_to_ascii(0x2C), Some(b'z'));
    assert_eq!(scancode_to_ascii(0x10), Some(b'q'));
    assert_eq!(scancode_to_ascii(0x02), Some(b'1'));
    assert_eq!(scancode_to_ascii(0x0B), Some(b'0'));
    assert_eq!(scancode_to_ascii(0x39), Some(b' '));
    assert_eq!(scancode_to_ascii(0x1C), Some(b'\n'));
    assert_eq!(scancode_to_ascii(0x0E), Some(0x08));
    assert_eq!(scancode_to_ascii(0x01), None);
    assert_eq!(scancode_to_ascii(0x9E), None);
}

#[test]
fn typed_line_is_read_back() {
    let mut e = LineEditor::new();
    let mut c = VgaConsole::new();
    e.begin_line();
    for sc in [KEY_H, KEY_I, KEY_SPACE, KEY_1] {
        keyboard_isr_rust(&mut e, &mut c, sc);
    }
    assert_eq!(read_line(&e), None);
    keyboard_isr_rust(&mut e, &mut c, KEY_ENTER);
    assert_eq!(read_line(&e), Some(String::from("hi 1")));
    assert_eq!(c.cell(0, 0).0, b'h');
    assert_eq!(c.cell(3, 0).0, b'1');
    assert_eq!(c.cursor(), (0, 1));
}

#[test]
fn backspace_edits_line_and_screen() {
    let mut e = LineEditor::new();
    let mut c = VgaConsole::new();
    keyboard_isr_rust(&mut e, &mut c, KEY_H);
    keyboard_isr_rust(&mut e, &mut c, KEY_I);
    keyboard_isr_rust(&mut e, &mut c, KEY_BACKSPACE);
    assert_eq!(c.cursor(), (1, 0));
    assert_eq!(c.cell(1, 0).0, b' ');
    keyboard_isr_rust(&mut e, &mut c, KEY_ENTER);
    assert_eq!(read_line(&e), Some(String::from("h")));
}

#[test]
fn backspace_on_empty_line_does_nothing() {
    let mut e = LineEditor::new();
    let mut c = VgaConsole::new();
    c.write_str("> ");
    keyboard_isr_rust(&mut e, &mut c, KEY_BACKSPACE);
    assert_eq!(c.cursor(), (2, 0));
    assert_eq!(c.cell(1, 0).0, b' ');
    assert_eq!(c.cell(0, 0).0, b'>');
    assert_eq!(e.handle_scancode(KEY_BACKSPACE), None);
}

#[test]
fn releases_and_unknown_keys_are_ignored() {
    let mut e = LineEditor::new();
    assert_eq!(e.handle_scancode(KEY_H | 0x80), None);
    assert_eq!(e.handle_scancode(0x01), None);
    assert_eq!(e.handle_scancode(0x3B), None);
    assert_eq!(e.handle_scancode(KEY_H), Some(b'h'));
    assert_eq!(e.line_string(), String::from("h"));
    assert!(!e.is_ready());
}

#[test]
fn full_line_drops_characters() {
    let mut e = LineEditor::new();
    for _ in 0..LINE_BUF_SIZE {
        assert_eq!(e.handle_scancode(KEY_H), Some(b'h'));
    }
    assert_eq!(e.handle_scancode(KEY_I), None);
    assert_eq!(e.handle_scancode(KEY_ENTER), Some(b'\n'));
    assert_eq!(read_line(&e).unwrap().len(), LINE_BUF_SIZE);
    assert_eq!(e.handle_scancode(KEY_BACKSPACE), Some(0x08));
    assert_eq!(e.line_string().len(), LINE_BUF_SIZE - 1);
}

#[test]
fn begin_line_resets() {
    let mut e = LineEditor::new();
    e.handle_scancode(KEY_H);
    e.handle_scancode(KEY_ENTER);
    assert!(e.is_ready());
    e.begin_line();
    assert!(!e.is_ready());
    assert_eq!(e.line_string(), String::new());
    assert_eq!(read_line(&e), None);
}

#[test]
fn install_points_vector_0x21_at_handler() {
    let mut idt = Idt::new();
    install(&mut idt, 0x0010_2345);
    assert_eq!(
        idt.entry(0x21),
        IdtEntry { offset_low: 0x2345, selector: 0x08, zero: 0, type_attr: 0x8E, offset_high: 0x0010 }
    );
    assert_eq!(idt.entry(0x20), IdtEntry { offset_low: 0, selector: 0, zero: 0, type_attr: 0, offset_high: 0 });
}
