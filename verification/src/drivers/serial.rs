//! 16550 UART: the port writes that set it up and send bytes.

use vstd::prelude::*;
use vstd::string::StringSliceAdditionalSpecFns;

verus! {

/// COM1 base port.
pub const COM1: u16 = 0x3F8;

/// A UART at `base`.
pub struct SerialPort {
    pub base: u16,
}

/// Setup of a UART at `base`: interrupts off, divisor 3 (38400 baud), 8N1, FIFO on with
/// a 14-byte threshold, RTS/DSR set.
pub open spec fn init_writes(base: u16) -> Seq<(u16, u8)> {
    seq![
        ((base + 1) as u16, 0x00u8),
        ((base + 3) as u16, 0x80u8),
        (base, 0x03u8),
        ((base + 1) as u16, 0x00u8),
        ((base + 3) as u16, 0x03u8),
        ((base + 2) as u16, 0xC7u8),
        ((base + 4) as u16, 0x0Bu8),
    ]
}

impl SerialPort {
    /// The port at `base` and the writes that set it up.
    pub fn init(base: u16) -> (r: (SerialPort, Vec<(u16, u8)>))
        requires
            base + 4 <= u16::MAX,
        ensures
            r.0.base == base,
            r.1@ == init_writes(base),
    {
        let mut w: Vec<(u16, u8)> = Vec::new();
        w.push((base + 1, 0x00));
        w.push((base + 3, 0x80));
        w.push((base + 0, 0x03));
        w.push((base + 1, 0x00));
        w.push((base + 3, 0x03));
        w.push((base + 2, 0xC7));
        w.push((base + 4, 0x0B));
        (SerialPort { base }, w)
    }

    /// The line status register's port.
    pub fn line_status_port(&self) -> (p: u16)
        requires
            self.base + 5 <= u16::MAX,
        ensures
            p == self.base + 5,
    {
        self.base + 5
    }

    /// Whether the transmit buffer is empty, from the line status register.
    pub fn is_transmit_empty(&self, line_status: u8) -> (b: bool)
        ensures
            b == (line_status & 0x20 != 0),
    {
        line_status & 0x20 != 0
    }

    /// The write that sends `byte`, once the transmit buffer is empty.
    pub fn write_byte(&mut self, byte: u8) -> (w: (u16, u8))
        ensures
            w == (old(self).base, byte),
            final(self).base == old(self).base,
    {
        (self.base, byte)
    }

    /// The writes that send the bytes of `s`, in order.
    pub fn write_str(&mut self, s: &str) -> (w: Vec<(u16, u8)>)
        ensures
            final(self).base == old(self).base,
            w@.len() == s.spec_bytes().len(),
            forall|i: int| 0 <= i < w@.len() ==> #[trigger] w@[i] == (old(self).base, s.spec_bytes()[i]),
    {
        let bytes = s.as_bytes();
        let mut w: Vec<(u16, u8)> = Vec::new();
        let mut i: usize = 0;
        while i < bytes.len()
            invariant
                bytes@ == s.spec_bytes(),
                self.base == old(self).base,
                i <= bytes@.len(),
                w@.len() == i,
                forall|j: int| 0 <= j < i ==> #[trigger] w@[j] == (old(self).base, bytes@[j]),
            decreases bytes@.len() - i,
        {
            let p = self.write_byte(bytes[i]);
            w.push(p);
            i = i + 1;
        }
        w
    }
}

} // verus!
