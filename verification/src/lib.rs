//! A small bare-metal kernel's logic: the text consoles (VGA text mode and a
//! pixel framebuffer), the keyboard line editor, interrupt setup, the
//! Multiboot2 framebuffer tag parser and the bump allocator.

use vstd::prelude::*;

pub mod framebuffer;
pub mod heap;
pub mod interrupts;
pub mod keyboard;
pub mod multiboot2;
pub mod vga;

verus! {

/// ASCII line feed: ends a line.
pub const NEWLINE: u8 = 0x0a;
/// ASCII backspace: erases the character left of the cursor.
pub const BACKSPACE: u8 = 0x08;
/// ASCII space: what a blank or erased cell shows.
pub const SPACE: u8 = 0x20;

} // verus!
