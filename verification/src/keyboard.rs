//! The PS/2 keyboard: scancode decoding and the line editor that the
//! keyboard interrupt drives.

use vstd::prelude::*;

verus! {

use crate::interrupts::Idt;
use crate::vga::{VgaConsole, Screen, putc_spec, screen_wf, cell_offset, VGA_WIDTH};
use crate::{BACKSPACE, NEWLINE, SPACE};
use vstd::utf8::{encode_utf8, valid_utf8, is_ascii_chars, is_ascii_chars_encode_utf8,
    encode_utf8_valid_utf8, encode_utf8_decode_utf8};
use vstd::string::StringSliceAdditionalSpecFns;

/// Capacity of the line buffer; further keystrokes are dropped.
pub const LINE_BUF_SIZE: usize = 256;
/// Interrupt vector of IRQ1 (the keyboard) once the PIC is remapped.
pub const KEYBOARD_VECTOR: usize = 0x21;
/// Data port the scancode is read from.
pub const KEYBOARD_DATA_PORT: u16 = 0x60;
/// Bit set in the scancode of a key release.
pub const RELEASE_BIT: u8 = 0x80;

/// US QWERTY scancode set 1, make codes only: letters, digits, space,
/// enter (newline) and backspace.
pub open spec fn scancode_ascii(code: u8) -> Option<u8> {
    match code {
        0x1E => Some(0x61u8), 0x30 => Some(0x62u8), 0x2E => Some(0x63u8), 0x20 => Some(0x64u8),
        0x12 => Some(0x65u8), 0x21 => Some(0x66u8), 0x22 => Some(0x67u8), 0x23 => Some(0x68u8),
        0x17 => Some(0x69u8), 0x24 => Some(0x6Au8), 0x25 => Some(0x6Bu8), 0x26 => Some(0x6Cu8),
        0x32 => Some(0x6Du8), 0x31 => Some(0x6Eu8), 0x18 => Some(0x6Fu8), 0x19 => Some(0x70u8),
        0x10 => Some(0x71u8), 0x13 => Some(0x72u8), 0x1F => Some(0x73u8), 0x14 => Some(0x74u8),
        0x16 => Some(0x75u8), 0x2F => Some(0x76u8), 0x11 => Some(0x77u8), 0x2D => Some(0x78u8),
        0x15 => Some(0x79u8), 0x2C => Some(0x7Au8),
        0x02 => Some(0x31u8), 0x03 => Some(0x32u8), 0x04 => Some(0x33u8), 0x05 => Some(0x34u8),
        0x06 => Some(0x35u8), 0x07 => Some(0x36u8), 0x08 => Some(0x37u8), 0x09 => Some(0x38u8),
        0x0A => Some(0x39u8), 0x0B => Some(0x30u8),
        0x39 => Some(0x20u8),
        0x1C => Some(NEWLINE),
        0x0E => Some(BACKSPACE),
        _ => None,
    }
}

/// Decodes a make code to the ASCII byte it types, if it is one the demo
/// keymap knows.
pub fn scancode_to_ascii(code: u8) -> (r: Option<u8>)
    ensures
        r == scancode_ascii(code),
{
    match code {
        0x1E => Some(0x61u8), 0x30 => Some(0x62u8), 0x2E => Some(0x63u8), 0x20 => Some(0x64u8),
        0x12 => Some(0x65u8), 0x21 => Some(0x66u8), 0x22 => Some(0x67u8), 0x23 => Some(0x68u8),
        0x17 => Some(0x69u8), 0x24 => Some(0x6Au8), 0x25 => Some(0x6Bu8), 0x26 => Some(0x6Cu8),
        0x32 => Some(0x6Du8), 0x31 => Some(0x6Eu8), 0x18 => Some(0x6Fu8), 0x19 => Some(0x70u8),
        0x10 => Some(0x71u8), 0x13 => Some(0x72u8), 0x1F => Some(0x73u8), 0x14 => Some(0x74u8),
        0x16 => Some(0x75u8), 0x2F => Some(0x76u8), 0x11 => Some(0x77u8), 0x2D => Some(0x78u8),
        0x15 => Some(0x79u8), 0x2C => Some(0x7Au8),
        0x02 => Some(0x31u8), 0x03 => Some(0x32u8), 0x04 => Some(0x33u8), 0x05 => Some(0x34u8),
        0x06 => Some(0x35u8), 0x07 => Some(0x36u8), 0x08 => Some(0x37u8), 0x09 => Some(0x38u8),
        0x0A => Some(0x39u8), 0x0B => Some(0x30u8),
        0x39 => Some(0x20u8),
        0x1C => Some(NEWLINE),
        0x0E => Some(BACKSPACE),
        _ => None,
    }
}

/// The abstract state of the line editor.
pub struct LineState {
    /// What has been typed on the current line so far.
    pub line: Seq<u8>,
    /// Enter has been pressed since the line began.
    pub ready: bool,
}

pub open spec fn line_state_wf(s: LineState) -> bool {
    &&& s.line.len() <= LINE_BUF_SIZE
    &&& forall|i: int| 0 <= i < s.line.len() ==> #[trigger] s.line[i] < 0x80
}

/// One keystroke: the next state and the byte echoed to the screen, if any.
/// Releases and unknown keys do nothing; enter marks the line ready;
/// backspace drops the last byte (if there is one); any other key is
/// appended while there is room.
pub open spec fn key_step(s: LineState, scancode: u8) -> (LineState, Option<u8>) {
    if scancode & RELEASE_BIT != 0 {
        (s, None)
    } else {
        match scancode_ascii(scancode) {
            None => (s, None),
            Some(c) => if c == NEWLINE {
                (LineState { line: s.line, ready: true }, Some(NEWLINE))
            } else if c == BACKSPACE {
                if s.line.len() > 0 {
                    (LineState { line: s.line.drop_last(), ready: s.ready }, Some(BACKSPACE))
                } else {
                    (s, None)
                }
            } else {
                if s.line.len() < LINE_BUF_SIZE {
                    (LineState { line: s.line.push(c), ready: s.ready }, Some(c))
                } else {
                    (s, None)
                }
            },
        }
    }
}

/// The characters of an ASCII line.
pub open spec fn line_chars(line: Seq<u8>) -> Seq<char> {
    Seq::new(line.len(), |i: int| line[i] as char)
}

/// Every byte the keymap produces is ASCII.
proof fn lemma_scancode_ascii_is_ascii(code: u8)
    ensures
        scancode_ascii(code) matches Some(c) ==> c < 0x80,
{
}

/// The line buffer filled by the keyboard interrupt.
pub struct LineEditor {
    line: Vec<u8>,
    ready: bool,
}

impl View for LineEditor {
    type V = LineState;

    closed spec fn view(&self) -> LineState {
        LineState { line: self.line@, ready: self.ready }
    }
}

impl LineEditor {
    pub open spec fn wf(&self) -> bool {
        line_state_wf(self@)
    }

    /// An empty line, not ready.
    pub fn new() -> (e: LineEditor)
        ensures
            e@ == (LineState { line: Seq::empty(), ready: false }),
            e.wf(),
    {
        LineEditor { line: Vec::new(), ready: false }
    }

    /// Starts reading a new line: forgets what was typed and clears the
    /// ready flag.
    pub fn begin_line(&mut self)
        ensures
            final(self)@ == (LineState { line: Seq::empty(), ready: false }),
            final(self).wf(),
    {
        self.line.clear();
        self.ready = false;
    }

    /// Enter has been pressed since the line began.
    pub fn is_ready(&self) -> (r: bool)
        ensures
            r == self@.ready,
    {
        self.ready
    }

    /// Applies one scancode; returns the byte to echo to the screen.
    pub fn handle_scancode(&mut self, scancode: u8) -> (echo: Option<u8>)
        requires
            old(self).wf(),
        ensures
            final(self).wf(),
            (final(self)@, echo) == key_step(old(self)@, scancode),
    {
        if scancode & RELEASE_BIT != 0 {
            return None;
        }
        proof {
            lemma_scancode_ascii_is_ascii(scancode);
        }
        match scancode_to_ascii(scancode) {
            None => None,
            Some(c) => {
                if c == NEWLINE {
                    self.ready = true;
                    Some(NEWLINE)
                } else if c == BACKSPACE {
                    if self.line.len() > 0 {
                        self.line.pop();
                        Some(BACKSPACE)
                    } else {
                        None
                    }
                } else {
                    if self.line.len() < LINE_BUF_SIZE {
                        self.line.push(c);
                        Some(c)
                    } else {
                        None
                    }
                }
            },
        }
    }

    /// The line typed so far, as a string.
    pub fn line_string(&self) -> (s: String)
        requires
            self.wf(),
        ensures
            s@ == line_chars(self@.line),
    {
        let ghost chars = line_chars(self@.line);
        proof {
            assert(is_ascii_chars(chars));
            is_ascii_chars_encode_utf8(chars);
            assert(encode_utf8(chars) =~= self@.line);
            encode_utf8_valid_utf8(chars);
            encode_utf8_decode_utf8(chars);
        }
        match str_from_utf8(self.line.as_slice()) {
            Some(s) => {
                proof {
                    encode_utf8_decode_utf8(s@);
                }
                s.to_owned()
            },
            None => String::new(),
        }
    }
}

/// `core::str::from_utf8`, with its error mapped to `None`. The standard
/// library documents that it succeeds exactly on valid UTF-8 and that the
/// returned string slice is the input bytes.
#[verifier::external_body]
fn str_from_utf8(bytes: &[u8]) -> (r: Option<&str>)
    ensures
        r is Some <==> valid_utf8(bytes@),
        r matches Some(s) ==> s.spec_bytes() == bytes@,
{
    match core::str::from_utf8(bytes) {
        Ok(s) => Some(s),
        Err(_) => None,
    }
}

/// The keyboard interrupt's work once the scancode has been read from port
/// 0x60: update the line and echo the keystroke to the console.
pub fn keyboard_isr_rust(editor: &mut LineEditor, console: &mut VgaConsole, scancode: u8)
    requires
        old(editor).wf(),
        old(console).wf(),
    ensures
        final(editor).wf(),
        final(console).wf(),
        final(editor)@ == key_step(old(editor)@, scancode).0,
        final(console)@ == match key_step(old(editor)@, scancode).1 {
            Some(c) => putc_spec(old(console)@, c),
            None => old(console)@,
        },
{
    match editor.handle_scancode(scancode) {
        Some(c) => console.putc(c),
        None => {},
    }
}

/// The line, once enter has been pressed since `begin_line`; `None` while the
/// caller must keep waiting for keystrokes.
pub fn read_line(editor: &LineEditor) -> (r: Option<String>)
    requires
        editor.wf(),
    ensures
        match r {
            Some(s) => editor@.ready && s@ == line_chars(editor@.line),
            None => !editor@.ready,
        },
{
    if editor.is_ready() {
        Some(editor.line_string())
    } else {
        None
    }
}

/// Registers the keyboard handler at IRQ1's vector.
pub fn install(idt: &mut Idt, handler: u32)
    requires
        old(idt).wf(),
    ensures
        final(idt).wf(),
        final(idt)@ == old(idt)@.update(KEYBOARD_VECTOR as int, crate::interrupts::interrupt_gate(handler)),
{
    idt.set_idt_entry(KEYBOARD_VECTOR, handler);
}


/// Every keystroke keeps the line within its buffer and ASCII.
pub proof fn lemma_key_step_keeps_wf(s: LineState, scancode: u8)
    requires
        line_state_wf(s),
    ensures
        line_state_wf(key_step(s, scancode).0),
{
    lemma_scancode_ascii_is_ascii(scancode);
}

/// Key releases change nothing and echo nothing.
pub proof fn lemma_release_ignored(s: LineState, scancode: u8)
    requires
        scancode & RELEASE_BIT != 0,
    ensures
        key_step(s, scancode) == (s, None::<u8>),
{
}

/// Backspace right after typing a character removes exactly that
/// character, and both keystrokes are echoed.
pub proof fn lemma_type_then_backspace(s: LineState, scancode: u8, c: u8)
    requires
        s.line.len() < LINE_BUF_SIZE,
        scancode & RELEASE_BIT == 0,
        scancode_ascii(scancode) == Some(c),
        c != NEWLINE,
        c != BACKSPACE,
    ensures
        key_step(s, scancode).1 == Some(c),
        key_step(key_step(s, scancode).0, 0x0E).0 == s,
        key_step(key_step(s, scancode).0, 0x0E).1 == Some(BACKSPACE),
{
    assert(0x0Eu8 & RELEASE_BIT == 0) by (bit_vector);
    assert(s.line.push(c).drop_last() =~= s.line);
}

/// A full line drops further characters without echoing them.
pub proof fn lemma_full_line_drops_keys(s: LineState, scancode: u8, c: u8)
    requires
        s.line.len() == LINE_BUF_SIZE,
        scancode_ascii(scancode) == Some(c),
        c != NEWLINE,
        c != BACKSPACE,
    ensures
        key_step(s, scancode) == (s, None::<u8>),
{
}

/// Whatever the editor echoes is what changed: an appended character is the
/// echoed byte, a backspace echo removed the last byte, and a newline echo
/// marks the line ready without changing it.
pub proof fn lemma_echo_matches_change(s: LineState, scancode: u8)
    ensures
        key_step(s, scancode).1 matches Some(e) ==> (
            if e == NEWLINE {
                key_step(s, scancode).0 == (LineState { line: s.line, ready: true })
            } else if e == BACKSPACE {
                s.line.len() > 0 && key_step(s, scancode).0.line == s.line.drop_last()
            } else {
                key_step(s, scancode).0.line == s.line.push(e)
            }),
        key_step(s, scancode).1 is None ==> key_step(s, scancode).0 == s,
{
}


/// The line editor and the console after a sequence of scancodes, each
/// handled as the keyboard interrupt does.
pub open spec fn run_keys(e: LineState, c: Screen, keys: Seq<u8>) -> (LineState, Screen)
    decreases keys.len(),
{
    if keys.len() == 0 {
        (e, c)
    } else {
        let (e1, c1) = run_keys(e, c, keys.drop_last());
        let (e2, echo) = key_step(e1, keys.last());
        (e2, match echo {
            Some(b) => putc_spec(c1, b),
            None => c1,
        })
    }
}

/// What is typed is what is shown: starting an empty line at the left edge
/// of a row, after fewer keystrokes than a row is wide and no enter, the
/// cursor sits just after the line and the row shows exactly the line's
/// characters, backspaces included.
pub proof fn lemma_typed_line_is_echoed(e0: LineState, c0: Screen, keys: Seq<u8>)
    requires
        screen_wf(c0),
        c0.col == 0,
        e0.line.len() == 0,
        keys.len() < VGA_WIDTH,
        forall|i: int| 0 <= i < keys.len() ==> scancode_ascii(#[trigger] keys[i]) != Some(NEWLINE),
    ensures
        ({
            let (e, c) = run_keys(e0, c0, keys);
            &&& screen_wf(c)
            &&& e.line.len() <= keys.len()
            &&& c.row == c0.row
            &&& c.col == e.line.len()
            &&& forall|i: int| 0 <= i < e.line.len() ==> c.buffer[cell_offset(i, c0.row)] == #[trigger] e.line[i]
        }),
    decreases keys.len(),
{
    if keys.len() > 0 {
        let prefix = keys.drop_last();
        assert forall|i: int| 0 <= i < prefix.len() implies scancode_ascii(#[trigger] prefix[i]) != Some(NEWLINE) by {
            assert(prefix[i] == keys[i]);
        }
        lemma_typed_line_is_echoed(e0, c0, prefix);
        let (e1, c1) = run_keys(e0, c0, prefix);
        let k = keys.last();
        assert(scancode_ascii(keys[keys.len() - 1]) != Some(NEWLINE));
        lemma_scancode_ascii_is_ascii(k);
        let (e2, echo) = key_step(e1, k);
        let row = c0.row;
        let n = e1.line.len() as int;
        match echo {
            Some(b) => {
                if b == BACKSPACE {
                    let c2 = putc_spec(c1, b);
                    assert forall|i: int| 0 <= i < e2.line.len() implies c2.buffer[cell_offset(i, row)] == #[trigger] e2.line[i] by {
                        assert(e2.line[i] == e1.line[i]);
                        assert(c1.buffer[cell_offset(i, row)] == e1.line[i]);
                    }
                } else {
                    let c2 = putc_spec(c1, b);
                    assert(e2.line == e1.line.push(b));
                    assert forall|i: int| 0 <= i < e2.line.len() implies c2.buffer[cell_offset(i, row)] == #[trigger] e2.line[i] by {
                        if i < n {
                            assert(e2.line[i] == e1.line[i]);
                            assert(c1.buffer[cell_offset(i, row)] == e1.line[i]);
                        }
                    }
                }
            },
            None => {},
        }
    }
}


/// The keymap follows the US QWERTY layout row by row: along each key row
/// the make codes are consecutive, and they type that row's characters; the
/// space bar, enter and backspace type space, newline and backspace; every
/// other code types nothing.
pub proof fn lemma_keymap_is_qwerty(code: u8)
    ensures
        0x02 <= code <= 0x0B ==> scancode_ascii(code) == Some(seq![
            0x31u8, 0x32u8, 0x33u8, 0x34u8, 0x35u8, 0x36u8, 0x37u8, 0x38u8, 0x39u8, 0x30u8,
        ][code - 0x02]),
        0x10 <= code <= 0x19 ==> scancode_ascii(code) == Some(seq![
            0x71u8, 0x77u8, 0x65u8, 0x72u8, 0x74u8, 0x79u8, 0x75u8, 0x69u8, 0x6Fu8, 0x70u8,
        ][code - 0x10]),
        0x1E <= code <= 0x26 ==> scancode_ascii(code) == Some(seq![
            0x61u8, 0x73u8, 0x64u8, 0x66u8, 0x67u8, 0x68u8, 0x6Au8, 0x6Bu8, 0x6Cu8,
        ][code - 0x1E]),
        0x2C <= code <= 0x32 ==> scancode_ascii(code) == Some(seq![
            0x7Au8, 0x78u8, 0x63u8, 0x76u8, 0x62u8, 0x6Eu8, 0x6Du8,
        ][code - 0x2C]),
        code == 0x39 ==> scancode_ascii(code) == Some(SPACE),
        code == 0x1C ==> scancode_ascii(code) == Some(NEWLINE),
        code == 0x0E ==> scancode_ascii(code) == Some(BACKSPACE),
        !(0x02 <= code <= 0x0B || 0x10 <= code <= 0x19 || 0x1E <= code <= 0x26 || 0x2C <= code <= 0x32
            || code == 0x39 || code == 0x1C || code == 0x0E) ==> scancode_ascii(code) is None,
{
}

/// Distinct keys type distinct characters: the keymap is injective.
pub proof fn lemma_keymap_injective(c1: u8, c2: u8)
    requires
        scancode_ascii(c1) is Some,
        scancode_ascii(c1) == scancode_ascii(c2),
    ensures
        c1 == c2,
{
}

/// A key press that types a character appends exactly the character the
/// keymap gives for its code, and echoes it, while the line has room.
pub proof fn lemma_key_appends_decoded_char(s: LineState, code: u8)
    requires
        code < 0x80,
        scancode_ascii(code) matches Some(c) && c != NEWLINE && c != BACKSPACE,
        s.line.len() < LINE_BUF_SIZE,
    ensures
        key_step(s, code).0.line == s.line.push(scancode_ascii(code)->0),
        key_step(s, code).0.ready == s.ready,
        key_step(s, code).1 == scancode_ascii(code),
{
    assert(code & RELEASE_BIT == 0) by (bit_vector) requires code < 0x80u8;
}

/// Enter marks the line ready without changing it and echoes a newline;
/// backspace removes the last character, if there is one, and echoes a
/// backspace.
pub proof fn lemma_enter_and_backspace_keys(s: LineState)
    ensures
        key_step(s, 0x1C) == (LineState { line: s.line, ready: true }, Some(NEWLINE)),
        s.line.len() > 0 ==> key_step(s, 0x0E) == (LineState { line: s.line.subrange(0, s.line.len() - 1), ready: s.ready }, Some(BACKSPACE)),
        s.line.len() == 0 ==> key_step(s, 0x0E) == (s, None::<u8>),
{
    assert(0x1Cu8 & RELEASE_BIT == 0) by (bit_vector);
    assert(0x0Eu8 & RELEASE_BIT == 0) by (bit_vector);
}
} // verus!
