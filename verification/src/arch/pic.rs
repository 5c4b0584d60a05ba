//! The pair of 8259A interrupt controllers: what to write to their ports to set them
//! up, acknowledge an interrupt and mask or unmask a line.

use vstd::prelude::*;

verus! {

/// Master command port.
pub const PIC1_COMMAND: u16 = 0x20;
/// Master data port.
pub const PIC1_DATA: u16 = 0x21;
/// Slave command port.
pub const PIC2_COMMAND: u16 = 0xA0;
/// Slave data port.
pub const PIC2_DATA: u16 = 0xA1;
/// End-of-interrupt command.
pub const PIC_EOI: u8 = 0x20;
/// ICW1: initialise.
pub const ICW1_INIT: u8 = 0x10;
/// ICW1: ICW4 follows.
pub const ICW1_ICW4: u8 = 0x01;
/// ICW4: 8086 mode.
pub const ICW4_8086: u8 = 0x01;
/// Vector of IRQ 0.
pub const PIC1_OFFSET: u8 = 32;
/// Vector of IRQ 8.
pub const PIC2_OFFSET: u8 = 40;
/// Port written to wait for an I/O operation to settle.
pub const IO_WAIT_PORT: u16 = 0x80;

/// Timer IRQ.
pub const IRQ_TIMER: u8 = 0;
/// Keyboard IRQ.
pub const IRQ_KEYBOARD: u8 = 1;
/// Cascade IRQ.
pub const IRQ_CASCADE: u8 = 2;
/// Real-time clock IRQ.
pub const IRQ_RTC: u8 = 8;
/// PS/2 mouse IRQ.
pub const IRQ_MOUSE: u8 = 12;
/// Primary ATA IRQ.
pub const IRQ_PRIMARY_ATA: u8 = 14;

/// The two controllers and the vectors of their first lines.
pub struct Pic {
    pub offset1: u8,
    pub offset2: u8,
}

/// An I/O wait: a write of 0 to the POST port.
pub open spec fn io_wait() -> (u16, u8) {
    (IO_WAIT_PORT, 0u8)
}

impl Pic {
    /// Controllers whose lines start at `offset1` and `offset2`.
    pub fn new(offset1: u8, offset2: u8) -> (p: Pic)
        ensures
            p.offset1 == offset1,
            p.offset2 == offset2,
    {
        Pic { offset1, offset2 }
    }

    /// The initialisation sequence, given the masks read from the data ports before:
    /// ICW1 to both, the offsets, the cascade wiring, 8086 mode, each followed by an I/O
    /// wait, then the saved masks written back.
    pub fn init(&self, mask1: u8, mask2: u8) -> (w: Vec<(u16, u8)>)
        ensures
            w@ == seq![
                (PIC1_COMMAND, 0x11u8), io_wait(),
                (PIC2_COMMAND, 0x11u8), io_wait(),
                (PIC1_DATA, self.offset1), io_wait(),
                (PIC2_DATA, self.offset2), io_wait(),
                (PIC1_DATA, 4u8), io_wait(),
                (PIC2_DATA, 2u8), io_wait(),
                (PIC1_DATA, ICW4_8086), io_wait(),
                (PIC2_DATA, ICW4_8086), io_wait(),
                (PIC1_DATA, mask1),
                (PIC2_DATA, mask2),
            ],
    {
        let mut w: Vec<(u16, u8)> = Vec::new();
        let icw1 = ICW1_INIT | ICW1_ICW4;
        assert(icw1 == 0x11) by (bit_vector) requires icw1 == 0x10u8 | 0x01u8;
        w.push((PIC1_COMMAND, icw1));
        w.push((IO_WAIT_PORT, 0));
        w.push((PIC2_COMMAND, icw1));
        w.push((IO_WAIT_PORT, 0));
        w.push((PIC1_DATA, self.offset1));
        w.push((IO_WAIT_PORT, 0));
        w.push((PIC2_DATA, self.offset2));
        w.push((IO_WAIT_PORT, 0));
        w.push((PIC1_DATA, 4));
        w.push((IO_WAIT_PORT, 0));
        w.push((PIC2_DATA, 2));
        w.push((IO_WAIT_PORT, 0));
        w.push((PIC1_DATA, ICW4_8086));
        w.push((IO_WAIT_PORT, 0));
        w.push((PIC2_DATA, ICW4_8086));
        w.push((IO_WAIT_PORT, 0));
        w.push((PIC1_DATA, mask1));
        w.push((PIC2_DATA, mask2));
        w
    }

    /// Mask every line of both controllers.
    pub fn disable(&self) -> (w: Vec<(u16, u8)>)
        ensures
            w@ == seq![(PIC1_DATA, 0xFFu8), (PIC2_DATA, 0xFFu8)],
    {
        let mut w: Vec<(u16, u8)> = Vec::new();
        w.push((PIC1_DATA, 0xFF));
        w.push((PIC2_DATA, 0xFF));
        w
    }

    /// Acknowledge IRQ `irq`: the slave too when the line is on it (8 and above), then
    /// the master.
    pub fn send_eoi(&self, irq: u8) -> (w: Vec<(u16, u8)>)
        ensures
            irq >= 8 ==> w@ == seq![(PIC2_COMMAND, PIC_EOI), (PIC1_COMMAND, PIC_EOI)],
            irq < 8 ==> w@ == seq![(PIC1_COMMAND, PIC_EOI)],
    {
        let mut w: Vec<(u16, u8)> = Vec::new();
        if irq >= 8 {
            w.push((PIC2_COMMAND, PIC_EOI));
        }
        w.push((PIC1_COMMAND, PIC_EOI));
        w
    }

    /// The data port that holds the mask of `irq`.
    pub fn mask_port(&self, irq: u8) -> (port: u16)
        ensures
            port == if irq < 8 { PIC1_DATA } else { PIC2_DATA },
    {
        if irq < 8 { PIC1_DATA } else { PIC2_DATA }
    }

    /// Mask `irq`, given the mask read from its data port: the write that sets its bit.
    pub fn set_mask(&self, irq: u8, current: u8) -> (w: (u16, u8))
        ensures
            w == (if irq < 8 { PIC1_DATA } else { PIC2_DATA }, current | ((1u8 << (irq % 8)) as u8)),
    {
        let port = self.mask_port(irq);
        let line = irq % 8;
        (port, current | (1 << line))
    }

    /// Unmask `irq`, given the mask read from its data port: the write that clears its
    /// bit.
    pub fn clear_mask(&self, irq: u8, current: u8) -> (w: (u16, u8))
        ensures
            w == (if irq < 8 { PIC1_DATA } else { PIC2_DATA }, current & !((1u8 << (irq % 8)) as u8)),
    {
        let port = self.mask_port(irq);
        let line = irq % 8;
        (port, current & !(1 << line))
    }

    /// The interrupt vector of `irq`.
    pub fn irq_vector(&self, irq: u8) -> (v: u8)
        requires
            irq < 8 ==> self.offset1 + irq <= 255,
            irq >= 8 ==> self.offset2 + irq - 8 <= 255,
        ensures
            v == if irq < 8 { self.offset1 + irq } else { self.offset2 + irq - 8 },
    {
        if irq < 8 {
            self.offset1 + irq
        } else {
            self.offset2 + (irq - 8)
        }
    }
}

} // verus!
