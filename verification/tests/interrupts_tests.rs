use unikernel::interrupts::{init, remap_pic, Idt, IdtEntry, IdtPointer, PortWrite};

#[test]
fn gate_splits_handler_address() {
    let e = IdtEntry::new_gate(0xDEAD_BEEF);
    assert_eq!(e.offset_low, 0xBEEF);
    assert_eq!(e.offset_high, 0xDEAD);
    assert_eq!(e.selector, 0x08);
    assert_eq!(e.zero, 0);
    assert_eq!(e.type_attr, 0x8E);
    assert_eq!(e.to_bytes(), vec![0xEF, 0xBE, 0x08, 0x00, 0x00, 0x8E, 0xAD, 0xDE]);
}

#[test]
fn table_bytes_are_packed_gates() {
    let mut idt = Idt::new();
    idt.set_idt_entry(1, 0x1234_5678);
    let b = idt.to_bytes();
    assert_eq!(b.len(), 2048);
    assert_eq!(&b[0..8], &[0u8; 8]);
    assert_eq!(&b[8..16], &[0x78, 0x56, 0x08, 0x00, 0x00, 0x8E, 0x34, 0x12]);
    assert!(b[16..].iter().all(|&x| x == 0));
}

#[test]
fn descriptor_limit_covers_table() {
    assert_eq!(Idt::descriptor(0x0010_0000), IdtPointer { limit: 2047, base: 0x0010_0000 });
}

#[test]
fn pic_remap_sequence() {
    let w = remap_pic();
    let expect: Vec<PortWrite> = [
        (0x20, 0x11), (0xA0, 0x11), (0x21, 0x20), (0xA1, 0x28), (0x21, 0x04),
        (0xA1, 0x02), (0x21, 0x01), (0xA1, 0x01), (0x21, 0xFD), (0xA1, 0xFF),
    ]
    .iter()
    .map(|&(port, value)| PortWrite { port, value })
    .collect();
    assert_eq!(w, expect);
}

#[test]
fn init_installs_keyboard_gate() {
    let mut idt = Idt::new();
    let s = init(&mut idt, 0x0000_4000, 0x0020_0000);
    assert_eq!(s.descriptor, IdtPointer { limit: 2047, base: 0x0020_0000 });
    assert_eq!(s.pic_writes, remap_pic());
    assert_eq!(idt.entry(0x21), IdtEntry::new_gate(0x4000));
    assert_eq!(idt.entry(0x21).offset_low, 0x4000);
}

#[test]
fn lidt_operand_is_packed_little_endian() {
    let p = IdtPointer { limit: 2047, base: 0x1234_5678 };
    assert_eq!(p.to_bytes(), vec![0xFF, 0x07, 0x78, 0x56, 0x34, 0x12]);
}
