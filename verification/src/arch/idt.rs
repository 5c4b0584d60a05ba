//! Interrupt descriptor table, and what the interrupt handlers decide: the exception
//! report, the timer tick and the keystroke, each followed by the acknowledgement.

use vstd::prelude::*;
use vstd::string::StringSliceAdditionalSpecFns;
use vstd::utf8::encode_utf8;
use crate::arch::gdt::{le_bytes, GdtPointer};
use crate::arch::pic::{Pic, IRQ_KEYBOARD, IRQ_TIMER, PIC1_COMMAND, PIC_EOI};
use crate::arch::pit::{tick, Timer};
use crate::drivers::keyboard::{handle_scancode, key_event, next_state, show_event, KeyboardState};
use crate::drivers::vga::Writer;
use crate::util::{hex_u64_bytes, push_str};

verus! {

/// Present bit of an entry's type byte.
pub const IDT_PRESENT: u8 = 0x80;
/// Privilege level 0.
pub const IDT_DPL_RING0: u8 = 0x00;
/// Privilege level 3.
pub const IDT_DPL_RING3: u8 = 0x60;
/// 64-bit interrupt gate.
pub const IDT_GATE_INTERRUPT: u8 = 0x0E;
/// 64-bit trap gate.
pub const IDT_GATE_TRAP: u8 = 0x0F;

/// Size of the table in bytes, less one: 256 sixteen-byte entries.
pub const IDT_LIMIT: u16 = 4095;

/// An interrupt gate, sixteen bytes.
#[derive(Debug, Clone, Copy)]
pub struct IdtEntry {
    pub offset_low: u16,
    pub selector: u16,
    pub ist: u8,
    pub type_attr: u8,
    pub offset_mid: u16,
    pub offset_high: u32,
    pub reserved: u32,
}

/// The all-zero entry.
pub open spec fn null_entry() -> IdtEntry {
    IdtEntry { offset_low: 0, selector: 0, ist: 0, type_attr: 0, offset_mid: 0, offset_high: 0, reserved: 0 }
}

/// The present ring-0 interrupt gate to a handler at `addr` in segment `selector`.
pub open spec fn gate(addr: u64, selector: u16) -> IdtEntry {
    IdtEntry {
        offset_low: (addr & 0xFFFF) as u16,
        selector,
        ist: 0,
        type_attr: 0x8E,
        offset_mid: ((addr >> 16u64) & 0xFFFF) as u16,
        offset_high: ((addr >> 32u64) & 0xFFFFFFFF) as u32,
        reserved: 0,
    }
}

impl IdtEntry {
    /// The all-zero entry.
    pub fn null() -> (e: IdtEntry)
        ensures
            e == null_entry(),
    {
        IdtEntry { offset_low: 0, selector: 0, ist: 0, type_attr: 0, offset_mid: 0, offset_high: 0, reserved: 0 }
    }

    /// The present ring-0 interrupt gate to the handler at `handler_addr`.
    pub fn new(handler_addr: u64, selector: u16) -> (e: IdtEntry)
        ensures
            e == gate(handler_addr, selector),
    {
        let type_attr = IDT_PRESENT | IDT_DPL_RING0 | IDT_GATE_INTERRUPT;
        assert(type_attr == 0x8E) by (bit_vector) requires type_attr == 0x80u8 | 0x00u8 | 0x0Eu8;
        IdtEntry {
            offset_low: (handler_addr & 0xFFFF) as u16,
            selector,
            ist: 0,
            type_attr,
            offset_mid: ((handler_addr >> 16) & 0xFFFF) as u16,
            offset_high: ((handler_addr >> 32) & 0xFFFFFFFF) as u32,
            reserved: 0,
        }
    }
}

/// The ten bytes that LIDT reads.
#[derive(Debug, Clone, Copy)]
pub struct IdtPointer {
    pub bytes: [u8; 10],
}

/// The table of 256 gates.
pub struct Idt {
    pub entries: Vec<IdtEntry>,
}

impl Idt {
    /// A table of 256 null entries.
    pub fn new() -> (t: Idt)
        ensures
            t.entries@.len() == 256,
            forall|i: int| 0 <= i < 256 ==> #[trigger] t.entries@[i] == null_entry(),
    {
        let mut entries: Vec<IdtEntry> = Vec::new();
        let mut i: usize = 0;
        while i < 256
            invariant
                i <= 256,
                entries@.len() == i,
                forall|j: int| 0 <= j < i ==> #[trigger] entries@[j] == null_entry(),
            decreases 256 - i,
        {
            entries.push(IdtEntry::null());
            i = i + 1;
        }
        Idt { entries }
    }

    /// Point vector `index` at the handler at `handler_addr`, in the kernel code segment.
    pub fn set_handler(&mut self, index: usize, handler_addr: u64)
        requires
            index < old(self).entries@.len(),
        ensures
            final(self).entries@ == old(self).entries@.update(index as int, gate(handler_addr, 0x08)),
    {
        self.entries.set(index, IdtEntry::new(handler_addr, 0x08));
    }

    /// The pointer that loads this table from address `base`.
    pub fn pointer(&self, base: u64) -> (p: IdtPointer)
        ensures
            p.bytes@ == le_bytes(IDT_LIMIT as u64, 2) + le_bytes(base, 8),
    {
        let g = GdtPointer::new(IDT_LIMIT, base);
        IdtPointer { bytes: g.bytes }
    }
}

/// The exception vectors that get a handler: 0 to 20 but 15.
pub open spec fn is_exception_vector(v: int) -> bool {
    0 <= v <= 20 && v != 15
}

/// Install the handlers: the exception handler of each exception vector (`exceptions`
/// is indexed by vector), then the timer at 32 and the keyboard at 33.
pub fn init(idt: &mut Idt, exceptions: &Vec<u64>, timer_handler: u64, keyboard_handler: u64)
    requires
        old(idt).entries@.len() == 256,
        exceptions@.len() == 21,
    ensures
        final(idt).entries@.len() == 256,
        forall|v: int| is_exception_vector(v) ==> #[trigger] final(idt).entries@[v] == gate(exceptions@[v], 0x08),
        final(idt).entries@[32] == gate(timer_handler, 0x08),
        final(idt).entries@[33] == gate(keyboard_handler, 0x08),
        forall|v: int| 0 <= v < 256 && !is_exception_vector(v) && v != 32 && v != 33
            ==> #[trigger] final(idt).entries@[v] == old(idt).entries@[v],
{
    let mut v: usize = 0;
    while v <= 20
        invariant
            v <= 21,
            idt.entries@.len() == 256,
            exceptions@.len() == 21,
            forall|k: int| 0 <= k < v && is_exception_vector(k) ==> #[trigger] idt.entries@[k] == gate(exceptions@[k], 0x08),
            forall|k: int| 0 <= k < 256 && !(0 <= k < v && is_exception_vector(k))
                ==> #[trigger] idt.entries@[k] == old(idt).entries@[k],
        decreases 21 - v,
    {
        if v != 15 {
            idt.set_handler(v, exceptions[v]);
        }
        v = v + 1;
    }
    idt.set_handler(32, timer_handler);
    idt.set_handler(33, keyboard_handler);
}

/// The name of exception `n`.
pub open spec fn exception_title(n: u64) -> Seq<char> {
    if n == 0 { "Division Error"@ }
    else if n == 1 { "Debug"@ }
    else if n == 2 { "Non-Maskable Interrupt"@ }
    else if n == 3 { "Breakpoint"@ }
    else if n == 4 { "Overflow"@ }
    else if n == 5 { "Bound Range Exceeded"@ }
    else if n == 6 { "Invalid Opcode"@ }
    else if n == 7 { "Device Not Available"@ }
    else if n == 8 { "Double Fault"@ }
    else if n == 10 { "Invalid TSS"@ }
    else if n == 11 { "Segment Not Present"@ }
    else if n == 12 { "Stack-Segment Fault"@ }
    else if n == 13 { "General Protection Fault"@ }
    else if n == 14 { "Page Fault"@ }
    else if n == 16 { "x87 FPU Error"@ }
    else if n == 17 { "Alignment Check"@ }
    else if n == 18 { "Machine Check"@ }
    else if n == 19 { "SIMD Exception"@ }
    else if n == 20 { "Virtualization Exception"@ }
    else { "Unknown Exception"@ }
}

/// The name of exception `n`.
pub fn exception_name(n: u64) -> (s: &'static str)
    ensures
        s@ == exception_title(n),
{
    match n {
        0 => "Division Error",
        1 => "Debug",
        2 => "Non-Maskable Interrupt",
        3 => "Breakpoint",
        4 => "Overflow",
        5 => "Bound Range Exceeded",
        6 => "Invalid Opcode",
        7 => "Device Not Available",
        8 => "Double Fault",
        10 => "Invalid TSS",
        11 => "Segment Not Present",
        12 => "Stack-Segment Fault",
        13 => "General Protection Fault",
        14 => "Page Fault",
        16 => "x87 FPU Error",
        17 => "Alignment Check",
        18 => "Machine Check",
        19 => "SIMD Exception",
        20 => "Virtualization Exception",
        _ => "Unknown Exception",
    }
}

/// The exception report: its name, and for a page fault (14) the faulting address from
/// CR2 in hex, then the halt notice.
pub open spec fn exception_report(n: u64, cr2: u64) -> Seq<u8> {
    "\n!!! EXCEPTION !!!\n".spec_bytes() + "Exception: ".spec_bytes() + encode_utf8(exception_title(n)) + "\n".spec_bytes()
        + (if n == 14 {
            "Faulting address: ".spec_bytes() + hex_u64_bytes(cr2) + "\n".spec_bytes()
        } else {
            Seq::empty()
        })
        + "System halted\n".spec_bytes()
}

/// Report exception `exception_num` to the serial output `out`; `cr2` is the faulting
/// address register, shown for a page fault. The CPU is halted after this.
pub fn exception_handler_rust(exception_num: u64, error_code: u64, cr2: u64, out: &mut Vec<u8>)
    ensures
        final(out)@ == old(out)@ + exception_report(exception_num, cr2),
{
    push_str(out, "\n!!! EXCEPTION !!!\n");
    let exception_name = exception_name(exception_num);
    push_str(out, "Exception: ");
    push_str(out, exception_name);
    push_str(out, "\n");
    let ghost mid = out@;
    if exception_num == 14 {
        push_str(out, "Faulting address: ");
        let mut buf = [0u8; 18];
        let hex_str = crate::util::format_hex_u64(cr2, &mut buf);
        proof {
            crate::util::lemma_hex_ascii(cr2);
            crate::util::lemma_ascii_encode(hex_u64_bytes(cr2));
        }
        push_str(out, hex_str);
        push_str(out, "\n");
    }
    push_str(out, "System halted\n");
    assert(out@ =~= old(out)@ + exception_report(exception_num, cr2));
}

/// The timer interrupt: count the tick, then the acknowledgement to send.
pub fn timer_handler_rust(timer: &mut Timer, pic: &Pic) -> (w: Vec<(u16, u8)>)
    ensures
        final(timer).ticks == old(timer).ticks.wrapping_add(1),
        w@ == seq![(PIC1_COMMAND, PIC_EOI)],
{
    tick(timer);
    pic.send_eoi(IRQ_TIMER)
}

/// The keyboard interrupt with the scancode read from port 0x60: handle the key, then
/// the acknowledgement to send.
pub fn keyboard_handler_rust(state: &mut KeyboardState, writer: &mut Option<Writer>, pic: &Pic, scancode: u8) -> (w: Vec<(u16, u8)>)
    requires
        *old(writer) matches Some(wr) ==> wr.wf(),
    ensures
        *final(state) == next_state(*old(state), scancode),
        match *old(writer) {
            Some(wr) => *final(writer) matches Some(w2) && w2.wf()
                && w2.state() == show_event(key_event(*old(state), scancode), wr.state()),
            None => *final(writer) is None,
        },
        w@ == seq![(PIC1_COMMAND, PIC_EOI)],
{
    handle_scancode(state, writer, scancode);
    pic.send_eoi(IRQ_KEYBOARD)
}

} // verus!
