//! The 80x25 VGA text console: a cursor and a buffer of (character, colour)
//! byte pairs, with line wrapping, scrolling and backspace.

use vstd::prelude::*;

verus! {

use crate::interrupts::PortWrite;
use crate::{BACKSPACE, NEWLINE, SPACE};
use vstd::string::StringSliceAdditionalSpecFns;

pub const VGA_WIDTH: usize = 80;
pub const VGA_HEIGHT: usize = 25;
pub const COLOR_WHITE_ON_BLACK: u8 = 0x0f;
/// Bytes in the text buffer: one character byte and one colour byte per cell.
pub const VGA_BUFFER_BYTES: usize = 4000;
/// CRT controller index and data ports.
pub const CRTC_INDEX_PORT: u16 = 0x3D4;
pub const CRTC_DATA_PORT: u16 = 0x3D5;

/// The abstract state of the console.
pub struct Screen {
    /// The text buffer, two bytes per cell, row-major.
    pub buffer: Seq<u8>,
    pub col: int,
    pub row: int,
}

/// Index of the character byte of cell (col, row).
pub open spec fn cell_offset(col: int, row: int) -> int {
    (row * VGA_WIDTH + col) * 2
}

pub open spec fn screen_wf(s: Screen) -> bool {
    &&& s.buffer.len() == VGA_BUFFER_BYTES
    &&& 0 <= s.col <= VGA_WIDTH
    &&& 0 <= s.row < VGA_HEIGHT
}

/// A blank cell byte: a space in the character slot, white-on-black in the
/// colour slot.
pub open spec fn blank_byte(i: int) -> u8 {
    if i % 2 == 0 { SPACE } else { COLOR_WHITE_ON_BLACK }
}

/// Writes `byte` in white-on-black at cell (col, row).
pub open spec fn put_at_spec(buffer: Seq<u8>, col: int, row: int, byte: u8) -> Seq<u8> {
    buffer.update(cell_offset(col, row), byte).update(cell_offset(col, row) + 1, COLOR_WHITE_ON_BLACK)
}

/// Every row moves up by one; the last row becomes blank.
pub open spec fn scrolled(buffer: Seq<u8>) -> Seq<u8> {
    Seq::new(
        buffer.len(),
        |i: int|
            if i < (VGA_HEIGHT - 1) * VGA_WIDTH * 2 {
                buffer[i + VGA_WIDTH * 2]
            } else {
                blank_byte(i)
            },
    )
}

pub open spec fn cleared_screen() -> Screen {
    Screen { buffer: Seq::new(VGA_BUFFER_BYTES as nat, |i: int| blank_byte(i)), col: 0, row: 0 }
}

/// Moves to the start of the next line, scrolling when the cursor is on the
/// last row.
pub open spec fn new_line_spec(s: Screen) -> Screen {
    if s.row + 1 >= VGA_HEIGHT {
        Screen { buffer: scrolled(s.buffer), col: 0, row: VGA_HEIGHT - 1 }
    } else {
        Screen { buffer: s.buffer, col: 0, row: s.row + 1 }
    }
}

/// Writes one byte at the cursor, wrapping first when the line is full; a
/// newline byte starts a new line.
pub open spec fn write_byte_spec(s: Screen, byte: u8) -> Screen {
    if byte == NEWLINE {
        new_line_spec(s)
    } else {
        let s1 = if s.col >= VGA_WIDTH { new_line_spec(s) } else { s };
        Screen { buffer: put_at_spec(s1.buffer, s1.col, s1.row, byte), col: s1.col + 1, row: s1.row }
    }
}

/// Erases the cell left of the cursor, never moving to the row above.
pub open spec fn backspace_spec(s: Screen) -> Screen {
    if s.col == 0 {
        s
    } else {
        Screen { buffer: put_at_spec(s.buffer, s.col - 1, s.row, SPACE), col: s.col - 1, row: s.row }
    }
}

/// A keystroke echoed to the screen: newline, backspace (0x08) or a
/// character.
pub open spec fn putc_spec(s: Screen, byte: u8) -> Screen {
    if byte == NEWLINE {
        new_line_spec(s)
    } else if byte == BACKSPACE {
        backspace_spec(s)
    } else {
        write_byte_spec(s, byte)
    }
}

/// Writing a whole byte string, one `write_byte` after another.
pub open spec fn write_bytes_spec(s: Screen, bytes: Seq<u8>) -> Screen
    decreases bytes.len(),
{
    if bytes.len() == 0 {
        s
    } else {
        write_byte_spec(write_bytes_spec(s, bytes.drop_last()), bytes.last())
    }
}

/// Linear cursor position that the CRT controller takes.
pub open spec fn hardware_cursor_pos(col: int, row: int) -> int {
    row * VGA_WIDTH + col
}

pub struct VgaConsole {
    buffer: Vec<u8>,
    col: usize,
    row: usize,
}

impl View for VgaConsole {
    type V = Screen;

    closed spec fn view(&self) -> Screen {
        Screen { buffer: self.buffer@, col: self.col as int, row: self.row as int }
    }
}

impl VgaConsole {
    /// The buffer holds the whole screen and the cursor is on it.
    pub open spec fn wf(&self) -> bool {
        screen_wf(self@)
    }

    /// A cleared console with the cursor at the top left.
    pub fn new() -> (c: VgaConsole)
        ensures
            c.wf(),
            c@ == cleared_screen(),
    {
        let mut buffer: Vec<u8> = Vec::new();
        let mut i: usize = 0;
        while i < VGA_BUFFER_BYTES
            invariant
                i <= VGA_BUFFER_BYTES,
                buffer@ == Seq::new(i as nat, |j: int| blank_byte(j)),
            decreases VGA_BUFFER_BYTES - i,
        {
            if i % 2 == 0 {
                buffer.push(SPACE);
            } else {
                buffer.push(COLOR_WHITE_ON_BLACK);
            }
            i = i + 1;
        }
        VgaConsole { buffer, col: 0, row: 0 }
    }

    fn put_at(&mut self, col: usize, row: usize, byte: u8)
        requires
            old(self).wf(),
            col < VGA_WIDTH,
            row < VGA_HEIGHT,
        ensures
            final(self)@ == (Screen { buffer: put_at_spec(old(self)@.buffer, col as int, row as int, byte), ..old(self)@ }),
    {
        let offset = (row * VGA_WIDTH + col) * 2;
        self.buffer.set(offset, byte);
        self.buffer.set(offset + 1, COLOR_WHITE_ON_BLACK);
    }

    fn scroll_up(&mut self)
        requires
            old(self).wf(),
        ensures
            final(self)@ == (Screen { buffer: scrolled(old(self)@.buffer), ..old(self)@ }),
    {
        let ghost old_buf = self.buffer@;
        let moved: usize = (VGA_HEIGHT - 1) * VGA_WIDTH * 2;
        let mut i: usize = 0;
        while i < moved
            invariant
                moved == (VGA_HEIGHT - 1) * VGA_WIDTH * 2,
                i <= moved,
                old_buf.len() == VGA_BUFFER_BYTES,
                self.buffer@.len() == VGA_BUFFER_BYTES,
                self.col == old(self).col,
                self.row == old(self).row,
                forall|j: int| 0 <= j < i ==> #[trigger] self.buffer@[j] == old_buf[j + VGA_WIDTH * 2],
                forall|j: int| i <= j < VGA_BUFFER_BYTES ==> #[trigger] self.buffer@[j] == old_buf[j],
            decreases moved - i,
        {
            let b = self.buffer[i + VGA_WIDTH * 2];
            self.buffer.set(i, b);
            i = i + 1;
        }
        let mut col: usize = 0;
        while col < VGA_WIDTH
            invariant
                col <= VGA_WIDTH,
                self.wf(),
                self.col == old(self).col,
                self.row == old(self).row,
                forall|j: int| 0 <= j < moved ==> #[trigger] self.buffer@[j] == old_buf[j + VGA_WIDTH * 2],
                forall|j: int| moved <= j < moved + 2 * col ==> #[trigger] self.buffer@[j] == blank_byte(j),
                forall|j: int| moved + 2 * col <= j < VGA_BUFFER_BYTES ==> #[trigger] self.buffer@[j] == old_buf[j],
                moved == (VGA_HEIGHT - 1) * VGA_WIDTH * 2,
            decreases VGA_WIDTH - col,
        {
            self.put_at(col, VGA_HEIGHT - 1, SPACE);
            col = col + 1;
        }
        assert(self.buffer@ =~= scrolled(old_buf));
    }

    fn new_line(&mut self)
        requires
            old(self).wf(),
        ensures
            final(self).wf(),
            final(self)@ == new_line_spec(old(self)@),
    {
        let mut row = self.row + 1;
        if row >= VGA_HEIGHT {
            self.scroll_up();
            row = VGA_HEIGHT - 1;
        }
        self.col = 0;
        self.row = row;
    }

    /// Writes one byte at the cursor as the print path does: a newline byte
    /// starts a new line, any other byte is drawn (wrapping first when the
    /// line is full).
    pub fn write_byte(&mut self, byte: u8)
        requires
            old(self).wf(),
        ensures
            final(self).wf(),
            final(self)@ == write_byte_spec(old(self)@, byte),
    {
        if byte == NEWLINE {
            self.new_line();
            return;
        }
        let mut col = self.col;
        if col >= VGA_WIDTH {
            self.new_line();
            col = 0;
        }
        let row = self.row;
        self.put_at(col, row, byte);
        self.col = col + 1;
        self.row = row;
    }

    fn backspace(&mut self)
        requires
            old(self).wf(),
        ensures
            final(self).wf(),
            final(self)@ == backspace_spec(old(self)@),
    {
        let col = self.col;
        let row = self.row;
        if col == 0 {
            return;
        }
        let col = col - 1;
        self.col = col;
        self.put_at(col, row, SPACE);
    }

    /// Echoes a keystroke: newline, backspace (never into the row above) or a
    /// character.
    pub fn putc(&mut self, byte: u8)
        requires
            old(self).wf(),
        ensures
            final(self).wf(),
            final(self)@ == putc_spec(old(self)@, byte),
    {
        if byte == NEWLINE {
            self.new_line();
        } else if byte == BACKSPACE {
            self.backspace();
        } else {
            self.write_byte(byte);
        }
    }

    /// Blanks every cell and puts the cursor at the top left.
    pub fn clear_screen(&mut self)
        requires
            old(self).wf(),
        ensures
            final(self)@ == cleared_screen(),
    {
        let mut i: usize = 0;
        while i < VGA_BUFFER_BYTES
            invariant
                i <= VGA_BUFFER_BYTES,
                self.buffer@.len() == VGA_BUFFER_BYTES,
                forall|j: int| 0 <= j < i ==> #[trigger] self.buffer@[j] == blank_byte(j),
            decreases VGA_BUFFER_BYTES - i,
        {
            if i % 2 == 0 {
                self.buffer.set(i, SPACE);
            } else {
                self.buffer.set(i, COLOR_WHITE_ON_BLACK);
            }
            i = i + 1;
        }
        self.col = 0;
        self.row = 0;
        assert(self.buffer@ =~= cleared_screen().buffer);
    }

    /// Writes every byte of `bytes` in turn, as printing a string does.
    pub fn write_bytes(&mut self, bytes: &[u8])
        requires
            old(self).wf(),
        ensures
            final(self).wf(),
            final(self)@ == write_bytes_spec(old(self)@, bytes@),
    {
        let mut i: usize = 0;
        while i < bytes.len()
            invariant
                i <= bytes@.len(),
                self.wf(),
                self@ == write_bytes_spec(old(self)@, bytes@.take(i as int)),
            decreases bytes@.len() - i,
        {
            assert(bytes@.take(i as int + 1).drop_last() =~= bytes@.take(i as int));
            self.write_byte(bytes[i]);
            i = i + 1;
        }
        assert(bytes@.take(bytes@.len() as int) =~= bytes@);
    }

    /// Writes a string, byte by byte.
    pub fn write_str(&mut self, s: &str)
        requires
            old(self).wf(),
        ensures
            final(self).wf(),
            final(self)@ == write_bytes_spec(old(self)@, s.spec_bytes()),
    {
        self.write_bytes(s.as_bytes());
    }

    /// The cursor: (column, row).
    pub fn cursor(&self) -> (c: (usize, usize))
        ensures
            c.0 == self@.col,
            c.1 == self@.row,
    {
        (self.col, self.row)
    }

    /// The text buffer, to copy to the hardware buffer at 0xb8000.
    pub fn buffer(&self) -> (b: &[u8])
        ensures
            b@ == self@.buffer,
    {
        self.buffer.as_slice()
    }

    /// The (character, colour) pair of cell (col, row).
    pub fn cell(&self, col: usize, row: usize) -> (c: (u8, u8))
        requires
            self.wf(),
            col < VGA_WIDTH,
            row < VGA_HEIGHT,
        ensures
            c.0 == self@.buffer[cell_offset(col as int, row as int)],
            c.1 == self@.buffer[cell_offset(col as int, row as int) + 1],
    {
        let offset = (row * VGA_WIDTH + col) * 2;
        (self.buffer[offset], self.buffer[offset + 1])
    }

    /// The port writes that move the blinking hardware cursor to the cursor
    /// position: low byte of the linear position to CRTC register 0x0F, high
    /// byte to register 0x0E.
    pub fn cursor_port_writes(&self) -> (w: Vec<PortWrite>)
        requires
            self.wf(),
        ensures
            w@.len() == 4,
            w@[1].value == (self@.row * 80 + self@.col) % 256,
            w@[3].value == (self@.row * 80 + self@.col) / 256,
            w@ == seq![
                PortWrite { port: CRTC_INDEX_PORT, value: 0x0F },
                PortWrite { port: CRTC_DATA_PORT, value: (hardware_cursor_pos(self@.col, self@.row) % 256) as u8 },
                PortWrite { port: CRTC_INDEX_PORT, value: 0x0E },
                PortWrite { port: CRTC_DATA_PORT, value: (hardware_cursor_pos(self@.col, self@.row) / 256) as u8 },
            ],
    {
        let pos = (self.row * VGA_WIDTH + self.col) as u16;
        let low = (pos & 0xFF) as u8;
        let high = ((pos >> 8) & 0xFF) as u8;
        assert(pos & 0xFF == pos % 256) by (bit_vector);
        assert((pos >> 8) & 0xFF == pos / 256) by (bit_vector);
        let mut w: Vec<PortWrite> = Vec::new();
        w.push(PortWrite { port: CRTC_INDEX_PORT, value: 0x0F });
        w.push(PortWrite { port: CRTC_DATA_PORT, value: low });
        w.push(PortWrite { port: CRTC_INDEX_PORT, value: 0x0E });
        w.push(PortWrite { port: CRTC_DATA_PORT, value: high });
        w
    }
}


/// Every keystroke and every printed byte keeps the cursor on the screen and
/// the buffer whole.
pub proof fn lemma_operations_keep_wf(s: Screen, byte: u8)
    requires
        screen_wf(s),
    ensures
        screen_wf(putc_spec(s, byte)),
        screen_wf(write_byte_spec(s, byte)),
        screen_wf(new_line_spec(s)),
        screen_wf(backspace_spec(s)),
{
}

/// A new line puts the cursor at the start of the next row, or of the last
/// row when the screen had to scroll.
pub proof fn lemma_new_line_cursor(s: Screen)
    requires
        screen_wf(s),
    ensures
        new_line_spec(s).col == 0,
        new_line_spec(s).row == if s.row + 1 < VGA_HEIGHT { s.row + 1 } else { VGA_HEIGHT - 1 },
        s.row + 1 < VGA_HEIGHT ==> new_line_spec(s).buffer == s.buffer,
{
}

/// Backspace never crosses into the row above: the cursor stays on its row,
/// moves left by one unless already at the start, and no other row changes.
pub proof fn lemma_backspace_stays_on_row(s: Screen, col: int, row: int)
    requires
        screen_wf(s),
        0 <= col < VGA_WIDTH,
        0 <= row < VGA_HEIGHT,
        row != s.row,
    ensures
        backspace_spec(s).row == s.row,
        backspace_spec(s).col == if s.col == 0 { 0 } else { s.col - 1 },
        backspace_spec(s).buffer[cell_offset(col, row)] == s.buffer[cell_offset(col, row)],
        backspace_spec(s).buffer[cell_offset(col, row) + 1] == s.buffer[cell_offset(col, row) + 1],
{
    if s.col > 0 {
        assert(cell_offset(s.col - 1, s.row) != cell_offset(col, row)) by (nonlinear_arith)
            requires row != s.row, 0 <= col < VGA_WIDTH, 0 <= s.col - 1 < VGA_WIDTH,
                cell_offset(s.col - 1, s.row) == (s.row * VGA_WIDTH + s.col - 1) * 2,
                cell_offset(col, row) == (row * VGA_WIDTH + col) * 2;
        assert(cell_offset(s.col - 1, s.row) != cell_offset(col, row) + 1) by (nonlinear_arith)
            requires cell_offset(s.col - 1, s.row) == (s.row * VGA_WIDTH + s.col - 1) * 2,
                cell_offset(col, row) == (row * VGA_WIDTH + col) * 2;
        assert(cell_offset(s.col - 1, s.row) + 1 != cell_offset(col, row)) by (nonlinear_arith)
            requires cell_offset(s.col - 1, s.row) == (s.row * VGA_WIDTH + s.col - 1) * 2,
                cell_offset(col, row) == (row * VGA_WIDTH + col) * 2;
    }
}

/// Typing a character and then backspace, mid-line, puts the cursor back
/// where it was and leaves a blank in the cell the character took.
pub proof fn lemma_type_then_erase(s: Screen, byte: u8)
    requires
        screen_wf(s),
        s.col < VGA_WIDTH,
        byte != NEWLINE,
        byte != BACKSPACE,
    ensures
        putc_spec(putc_spec(s, byte), BACKSPACE) == (Screen {
            buffer: put_at_spec(s.buffer, s.col, s.row, SPACE),
            col: s.col,
            row: s.row,
        }),
{
    let b1 = put_at_spec(s.buffer, s.col, s.row, byte);
    assert(put_at_spec(b1, s.col, s.row, SPACE) =~= put_at_spec(s.buffer, s.col, s.row, SPACE));
}

/// Scrolling moves every row up by one and blanks the last row.
pub proof fn lemma_scroll_moves_rows_up(buffer: Seq<u8>, col: int, row: int)
    requires
        buffer.len() == VGA_BUFFER_BYTES,
        0 <= col < VGA_WIDTH,
        0 <= row < VGA_HEIGHT,
    ensures
        row + 1 < VGA_HEIGHT ==> scrolled(buffer)[cell_offset(col, row)] == buffer[cell_offset(col, row + 1)]
            && scrolled(buffer)[cell_offset(col, row) + 1] == buffer[cell_offset(col, row + 1) + 1],
        row == VGA_HEIGHT - 1 ==> scrolled(buffer)[cell_offset(col, row)] == SPACE
            && scrolled(buffer)[cell_offset(col, row) + 1] == COLOR_WHITE_ON_BLACK,
{
    assert(0 <= cell_offset(col, row) < VGA_BUFFER_BYTES - 1) by (nonlinear_arith)
        requires 0 <= col < VGA_WIDTH, 0 <= row < VGA_HEIGHT,
            cell_offset(col, row) == (row * VGA_WIDTH + col) * 2;
    assert(cell_offset(col, row + 1) == cell_offset(col, row) + VGA_WIDTH * 2) by (nonlinear_arith)
        requires cell_offset(col, row + 1) == ((row + 1) * VGA_WIDTH + col) * 2,
            cell_offset(col, row) == (row * VGA_WIDTH + col) * 2;
    if row == VGA_HEIGHT - 1 {
        assert(cell_offset(col, row) % 2 == 0);
    }
}

/// What writing a character does to the screen. Mid-line it fills the
/// cursor's cell (character byte, then white-on-black) and moves right. On a
/// full line it is the same as first starting a new line: on any row but
/// the last the character lands at the start of the next row; on the last
/// row every row first moves up one, the bottom row is blanked, and the
/// character lands at its start.
pub proof fn lemma_write_byte_effect(s: Screen, byte: u8)
    requires
        screen_wf(s),
        byte != NEWLINE,
    ensures
        ({
            let t = write_byte_spec(s, byte);
            &&& t.buffer.len() == VGA_BUFFER_BYTES
            &&& s.col < VGA_WIDTH ==> {
                &&& t.row == s.row && t.col == s.col + 1
                &&& forall|i: int| 0 <= i < VGA_BUFFER_BYTES ==> #[trigger] t.buffer[i] == (
                    if i == (s.row * 80 + s.col) * 2 { byte }
                    else if i == (s.row * 80 + s.col) * 2 + 1 { COLOR_WHITE_ON_BLACK }
                    else { s.buffer[i] })
            }
            &&& s.col >= VGA_WIDTH ==> t == write_byte_spec(new_line_spec(s), byte)
            &&& s.col >= VGA_WIDTH && s.row < VGA_HEIGHT - 1 ==> {
                &&& t.row == s.row + 1 && t.col == 1
                &&& forall|i: int| 0 <= i < VGA_BUFFER_BYTES ==> #[trigger] t.buffer[i] == (
                    if i == (s.row + 1) * 160 { byte }
                    else if i == (s.row + 1) * 160 + 1 { COLOR_WHITE_ON_BLACK }
                    else { s.buffer[i] })
            }
            &&& s.col >= VGA_WIDTH && s.row == VGA_HEIGHT - 1 ==> {
                &&& t.row == VGA_HEIGHT - 1 && t.col == 1
                &&& forall|i: int| 0 <= i < VGA_BUFFER_BYTES ==> #[trigger] t.buffer[i] == (
                    if i < 3840 { s.buffer[i + 160] }
                    else if i == 3840 { byte }
                    else if i % 2 == 0 { SPACE }
                    else { COLOR_WHITE_ON_BLACK })
            }
        }),
{
    let t = write_byte_spec(s, byte);
    if s.col >= VGA_WIDTH && s.row == VGA_HEIGHT - 1 {
        assert forall|i: int| 0 <= i < VGA_BUFFER_BYTES implies #[trigger] t.buffer[i] == (
            if i < 3840 { s.buffer[i + 160] }
            else if i == 3840 { byte }
            else if i % 2 == 0 { SPACE }
            else { COLOR_WHITE_ON_BLACK }) by {
            if i == 3841 {
                assert(i % 2 == 1);
            }
        }
    }
}

/// A newline moves to the start of the next row; on the last row every row
/// first moves up one and the bottom row is blanked.
pub proof fn lemma_new_line_effect(s: Screen)
    requires
        screen_wf(s),
    ensures
        ({
            let t = new_line_spec(s);
            &&& t.col == 0
            &&& t.buffer.len() == VGA_BUFFER_BYTES
            &&& s.row < VGA_HEIGHT - 1 ==> t.row == s.row + 1 && t.buffer == s.buffer
            &&& s.row == VGA_HEIGHT - 1 ==> {
                &&& t.row == VGA_HEIGHT - 1
                &&& forall|i: int| 0 <= i < VGA_BUFFER_BYTES ==> #[trigger] t.buffer[i] == (
                    if i < 3840 { s.buffer[i + 160] }
                    else if i % 2 == 0 { SPACE }
                    else { COLOR_WHITE_ON_BLACK })
            }
        }),
{
}

/// Backspace mid-row blanks the cell left of the cursor (a space in white
/// on black) and moves the cursor onto it; at the start of a row it does
/// nothing.
pub proof fn lemma_backspace_effect(s: Screen)
    requires
        screen_wf(s),
    ensures
        ({
            let t = backspace_spec(s);
            &&& s.col == 0 ==> t == s
            &&& s.col > 0 ==> {
                &&& t.row == s.row && t.col == s.col - 1
                &&& t.buffer.len() == s.buffer.len()
                &&& forall|i: int| 0 <= i < VGA_BUFFER_BYTES ==> #[trigger] t.buffer[i] == (
                    if i == (s.row * 80 + s.col - 1) * 2 { SPACE }
                    else if i == (s.row * 80 + s.col - 1) * 2 + 1 { COLOR_WHITE_ON_BLACK }
                    else { s.buffer[i] })
            }
        }),
{
}

/// A cleared screen shows a space in white on black in every cell, with the
/// cursor at the top left.
pub proof fn lemma_cleared_screen_is_blank()
    ensures
        cleared_screen().col == 0 && cleared_screen().row == 0,
        cleared_screen().buffer.len() == VGA_BUFFER_BYTES,
        forall|c: int, r: int| 0 <= c < 80 && 0 <= r < 25 ==>
            cleared_screen().buffer[#[trigger] ((r * 80 + c) * 2)] == SPACE
            && cleared_screen().buffer[(r * 80 + c) * 2 + 1] == COLOR_WHITE_ON_BLACK,
{
    assert forall|c: int, r: int| 0 <= c < 80 && 0 <= r < 25 implies
        cleared_screen().buffer[#[trigger] ((r * 80 + c) * 2)] == SPACE
            && cleared_screen().buffer[(r * 80 + c) * 2 + 1] == COLOR_WHITE_ON_BLACK by {
        assert(0 <= (r * 80 + c) * 2 && (r * 80 + c) * 2 + 1 < 4000) by (nonlinear_arith)
            requires 0 <= c < 80, 0 <= r < 25;
        assert(((r * 80 + c) * 2) % 2 == 0);
        assert(((r * 80 + c) * 2 + 1) % 2 == 1);
    }
}
} // verus!
