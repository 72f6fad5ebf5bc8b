//! Interrupt setup: interrupt-gate encoding, the IDT and its descriptor, and
//! the port writes that remap the legacy PIC.

use vstd::prelude::*;

verus! {

/// One `out` instruction: write `value` to I/O port `port`.
#[derive(Clone, Copy, Debug, PartialEq, Eq, Structural)]
pub struct PortWrite {
    pub port: u16,
    pub value: u8,
}

/// Number of gates in the IDT.
pub const IDT_ENTRIES: usize = 256;
/// Size in bytes of one packed gate.
pub const IDT_ENTRY_BYTES: usize = 8;
/// Kernel code segment selector.
pub const KERNEL_CODE_SELECTOR: u16 = 0x08;
/// Present, ring 0, 32-bit interrupt gate.
pub const INTERRUPT_GATE_ATTR: u8 = 0x8E;
/// Master PIC command port, where end-of-interrupt is sent.
pub const PIC1_COMMAND: u16 = 0x20;
/// End-of-interrupt command.
pub const PIC_EOI: u8 = 0x20;

/// A 32-bit IDT gate descriptor, field by field.
#[derive(Clone, Copy, Debug, PartialEq, Eq, Structural)]
pub struct IdtEntry {
    pub offset_low: u16,
    pub selector: u16,
    pub zero: u8,
    pub type_attr: u8,
    pub offset_high: u16,
}

/// The interrupt gate for a handler at address `handler`.
pub open spec fn interrupt_gate(handler: u32) -> IdtEntry {
    IdtEntry {
        offset_low: (handler % 0x10000) as u16,
        selector: KERNEL_CODE_SELECTOR,
        zero: 0,
        type_attr: INTERRUPT_GATE_ATTR,
        offset_high: (handler / 0x10000) as u16,
    }
}

/// The handler address a gate jumps to.
pub open spec fn gate_handler(e: IdtEntry) -> int {
    e.offset_high * 0x10000 + e.offset_low
}

/// An unused gate: all fields zero.
pub open spec fn empty_gate() -> IdtEntry {
    IdtEntry { offset_low: 0, selector: 0, zero: 0, type_attr: 0, offset_high: 0 }
}

impl IdtEntry {
    /// The interrupt gate for a handler at address `handler`.
    pub fn new_gate(handler: u32) -> (e: IdtEntry)
        ensures
            e == interrupt_gate(handler),
    {
        assert(handler & 0xFFFF == handler % 0x10000) by (bit_vector);
        assert((handler >> 16) & 0xFFFF == handler / 0x10000) by (bit_vector);
        IdtEntry {
            offset_low: (handler & 0xFFFF) as u16,
            selector: KERNEL_CODE_SELECTOR,
            zero: 0,
            type_attr: INTERRUPT_GATE_ATTR,
            offset_high: ((handler >> 16) & 0xFFFF) as u16,
        }
    }

    /// The packed little-endian layout the CPU reads.
    pub fn to_bytes(&self) -> (b: Vec<u8>)
        ensures
            b@ == seq![
                (self.offset_low % 256) as u8, (self.offset_low / 256) as u8,
                (self.selector % 256) as u8, (self.selector / 256) as u8,
                self.zero, self.type_attr,
                (self.offset_high % 256) as u8, (self.offset_high / 256) as u8,
            ],
    {
        let mut b: Vec<u8> = Vec::new();
        b.push((self.offset_low % 256) as u8);
        b.push((self.offset_low / 256) as u8);
        b.push((self.selector % 256) as u8);
        b.push((self.selector / 256) as u8);
        b.push(self.zero);
        b.push(self.type_attr);
        b.push((self.offset_high % 256) as u8);
        b.push((self.offset_high / 256) as u8);
        b
    }
}

/// The interrupt descriptor table.
pub struct Idt {
    entries: Vec<IdtEntry>,
}

impl View for Idt {
    type V = Seq<IdtEntry>;

    closed spec fn view(&self) -> Seq<IdtEntry> {
        self.entries@
    }
}

/// The operand of `lidt`.
#[derive(Clone, Copy, Debug, PartialEq, Eq, Structural)]
pub struct IdtPointer {
    pub limit: u16,
    pub base: u32,
}

impl IdtPointer {
    /// The packed 6-byte operand `lidt` reads: the limit, then the base,
    /// both little-endian.
    pub fn to_bytes(&self) -> (b: Vec<u8>)
        ensures
            b@ == seq![
                (self.limit % 256) as u8, (self.limit / 256) as u8,
                (self.base % 0x100) as u8, ((self.base / 0x100) % 0x100) as u8,
                ((self.base / 0x10000) % 0x100) as u8, (self.base / 0x1000000) as u8,
            ],
    {
        let mut b: Vec<u8> = Vec::new();
        b.push((self.limit % 256) as u8);
        b.push((self.limit / 256) as u8);
        b.push((self.base % 0x100) as u8);
        b.push(((self.base / 0x100) % 0x100) as u8);
        b.push(((self.base / 0x10000) % 0x100) as u8);
        b.push((self.base / 0x1000000) as u8);
        b
    }
}

impl Idt {
    pub open spec fn wf(&self) -> bool {
        self@.len() == IDT_ENTRIES
    }

    /// A table of 256 unused gates.
    pub fn new() -> (idt: Idt)
        ensures
            idt.wf(),
            forall|i: int| 0 <= i < IDT_ENTRIES ==> #[trigger] idt@[i] == empty_gate(),
    {
        let mut entries: Vec<IdtEntry> = Vec::new();
        let mut i: usize = 0;
        while i < IDT_ENTRIES
            invariant
                i <= IDT_ENTRIES,
                entries@.len() == i,
                forall|j: int| 0 <= j < i ==> #[trigger] entries@[j] == empty_gate(),
            decreases IDT_ENTRIES - i,
        {
            entries.push(IdtEntry { offset_low: 0, selector: 0, zero: 0, type_attr: 0, offset_high: 0 });
            i = i + 1;
        }
        Idt { entries }
    }

    /// Points gate `index` at the handler at address `handler`.
    pub fn set_idt_entry(&mut self, index: usize, handler: u32)
        requires
            old(self).wf(),
            index < IDT_ENTRIES,
        ensures
            final(self).wf(),
            final(self)@ == old(self)@.update(index as int, interrupt_gate(handler)),
    {
        let e = IdtEntry::new_gate(handler);
        self.entries.set(index, e);
    }

    /// Gate `index`.
    pub fn entry(&self, index: usize) -> (e: IdtEntry)
        requires
            self.wf(),
            index < IDT_ENTRIES,
        ensures
            e == self@[index as int],
    {
        self.entries[index]
    }

    /// The whole table as the CPU reads it: the packed gates one after
    /// another.
    pub fn to_bytes(&self) -> (b: Vec<u8>)
        requires
            self.wf(),
        ensures
            b@.len() == IDT_ENTRIES * IDT_ENTRY_BYTES,
            forall|i: int| 0 <= i < IDT_ENTRIES ==>
                #[trigger] b@.subrange(i * 8, i * 8 + 8) == gate_bytes(self@[i]),
    {
        let mut b: Vec<u8> = Vec::new();
        let mut i: usize = 0;
        while i < IDT_ENTRIES
            invariant
                self.wf(),
                i <= IDT_ENTRIES,
                b@.len() == i * 8,
                forall|j: int| 0 <= j < i ==> #[trigger] b@.subrange(j * 8, j * 8 + 8) == gate_bytes(self@[j]),
            decreases IDT_ENTRIES - i,
        {
            let e = self.entries[i];
            let eb = e.to_bytes();
            let ghost prev = b@;
            let mut k: usize = 0;
            while k < 8
                invariant
                    k <= 8,
                    eb@ == gate_bytes(e),
                    b@ == prev + eb@.subrange(0, k as int),
                decreases 8 - k,
            {
                b.push(eb[k]);
                k = k + 1;
                assert(eb@.subrange(0, k as int) =~= eb@.subrange(0, k - 1).push(eb@[k - 1]));
            }
            assert(b@.subrange(i * 8, i * 8 + 8) =~= gate_bytes(self@[i as int]));
            assert forall|j: int| 0 <= j < i implies #[trigger] b@.subrange(j * 8, j * 8 + 8) == gate_bytes(self@[j]) by {
                assert(b@.subrange(j * 8, j * 8 + 8) =~= prev.subrange(j * 8, j * 8 + 8));
            }
            i = i + 1;
        }
        b
    }

    /// The `lidt` operand for this table loaded at address `base`: its size
    /// in bytes minus one, and the base.
    pub fn descriptor(base: u32) -> (p: IdtPointer)
        ensures
            p.limit == IDT_ENTRIES * IDT_ENTRY_BYTES - 1,
            p.base == base,
    {
        IdtPointer { limit: (IDT_ENTRIES * IDT_ENTRY_BYTES - 1) as u16, base }
    }
}

/// The packed little-endian bytes of a gate.
pub open spec fn gate_bytes(e: IdtEntry) -> Seq<u8> {
    seq![
        (e.offset_low % 256) as u8, (e.offset_low / 256) as u8,
        (e.selector % 256) as u8, (e.selector / 256) as u8,
        e.zero, e.type_attr,
        (e.offset_high % 256) as u8, (e.offset_high / 256) as u8,
    ]
}

/// The initialisation sequence of both 8259 PICs: IRQs 0-7 to vectors
/// 0x20-0x27 and 8-15 to 0x28-0x2F, cascade on IRQ2, 8086 mode, and every
/// IRQ masked except IRQ1 (the keyboard).
pub open spec fn remap_pic_sequence() -> Seq<PortWrite> {
    seq![
        PortWrite { port: 0x20, value: 0x11 }, PortWrite { port: 0xA0, value: 0x11 },
        PortWrite { port: 0x21, value: 0x20 }, PortWrite { port: 0xA1, value: 0x28 },
        PortWrite { port: 0x21, value: 0x04 }, PortWrite { port: 0xA1, value: 0x02 },
        PortWrite { port: 0x21, value: 0x01 }, PortWrite { port: 0xA1, value: 0x01 },
        PortWrite { port: 0x21, value: 0xFD }, PortWrite { port: 0xA1, value: 0xFF },
    ]
}

/// The port writes that remap the PIC, in order.
pub fn remap_pic() -> (w: Vec<PortWrite>)
    ensures
        w@ == remap_pic_sequence(),
{
    let mut w: Vec<PortWrite> = Vec::new();
    w.push(PortWrite { port: 0x20, value: 0x11 });
    w.push(PortWrite { port: 0xA0, value: 0x11 });
    w.push(PortWrite { port: 0x21, value: 0x20 });
    w.push(PortWrite { port: 0xA1, value: 0x28 });
    w.push(PortWrite { port: 0x21, value: 0x04 });
    w.push(PortWrite { port: 0xA1, value: 0x02 });
    w.push(PortWrite { port: 0x21, value: 0x01 });
    w.push(PortWrite { port: 0xA1, value: 0x01 });
    w.push(PortWrite { port: 0x21, value: 0xFD });
    w.push(PortWrite { port: 0xA1, value: 0xFF });
    w
}

/// What `init` hands the CPU: the `lidt` operand, then the PIC port writes;
/// interrupts are enabled after both.
pub struct InterruptSetup {
    pub descriptor: IdtPointer,
    pub pic_writes: Vec<PortWrite>,
}

/// Installs the keyboard gate at vector 0x21 and returns the `lidt` operand
/// for the table at `idt_base` and the PIC remap writes.
pub fn init(idt: &mut Idt, keyboard_handler: u32, idt_base: u32) -> (s: InterruptSetup)
    requires
        old(idt).wf(),
    ensures
        final(idt).wf(),
        final(idt)@ == old(idt)@.update(0x21, interrupt_gate(keyboard_handler)),
        s.descriptor == (IdtPointer { limit: 2047, base: idt_base }),
        s.pic_writes@ == remap_pic_sequence(),
{
    idt.set_idt_entry(0x21, keyboard_handler);
    let descriptor = Idt::descriptor(idt_base);
    let pic_writes = remap_pic();
    InterruptSetup { descriptor, pic_writes }
}

/// A gate encodes its handler address exactly: the handler can be read back
/// from the two offset halves.
pub proof fn lemma_gate_handler_roundtrip(handler: u32)
    ensures
        gate_handler(interrupt_gate(handler)) == handler,
{
}

/// Setting one gate leaves every other gate as it was.
pub proof fn lemma_set_entry_touches_one_gate(t: Seq<IdtEntry>, index: int, handler: u32, other: int)
    requires
        0 <= index < t.len(),
        0 <= other < t.len(),
        other != index,
    ensures
        t.update(index, interrupt_gate(handler))[other] == t[other],
        t.update(index, interrupt_gate(handler))[index] == interrupt_gate(handler),
{
}

} // verus!
