# unikernel

The logic of a small single-core x86 kernel, verified with Verus:

- `vga`: the 80x25 text console (cursor, wrapping, scrolling, backspace,
  hardware-cursor port writes).
- `framebuffer`: the same console drawn into a linear RGB framebuffer with a
  9x16 bitmap font, in whatever channel layout the bootloader reports.
- `multiboot2`: the Multiboot2 tag walk that finds the framebuffer tag.
- `keyboard`: scancode decoding and the line editor the keyboard interrupt
  drives.
- `interrupts`: IDT gates, the IDT descriptor and the PIC remap sequence.
- `heap`: the bump allocator.

`app/` holds the hardware glue: port I/O, copying buffers to video memory,
`lidt`/`sti`/`hlt`, the interrupt entry point, the global allocator and the
print macros.
