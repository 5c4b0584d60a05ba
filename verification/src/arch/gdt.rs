//! Global descriptor table: the flat segments of x86_64 and the pointer that LGDT loads.

use vstd::prelude::*;

verus! {

/// Kernel code segment selector (ring 0).
pub const KERNEL_CODE: u16 = 0x08;
/// Kernel data segment selector (ring 0).
pub const KERNEL_DATA: u16 = 0x10;
/// User data segment selector (ring 3).
pub const USER_DATA: u16 = 0x1B;
/// User code segment selector (ring 3).
pub const USER_CODE: u16 = 0x23;

/// A segment descriptor, eight bytes.
#[derive(Debug, Clone, Copy)]
pub struct GdtEntry {
    pub limit_low: u16,
    pub base_low: u16,
    pub base_middle: u8,
    pub access: u8,
    pub granularity: u8,
    pub base_high: u8,
}

/// A flat descriptor (base 0, limit 0xFFFF) with the given access and granularity bytes.
pub open spec fn flat(access: u8, granularity: u8) -> GdtEntry {
    GdtEntry { limit_low: 0xFFFF, base_low: 0, base_middle: 0, access, granularity, base_high: 0 }
}

impl GdtEntry {
    /// The null descriptor.
    pub fn null() -> (e: GdtEntry)
        ensures
            e == (GdtEntry { limit_low: 0, base_low: 0, base_middle: 0, access: 0, granularity: 0, base_high: 0 }),
    {
        GdtEntry { limit_low: 0, base_low: 0, base_middle: 0, access: 0, granularity: 0, base_high: 0 }
    }

    /// Kernel code: present, ring 0, executable, readable; 64-bit, 4 KiB granularity.
    pub fn code_segment() -> (e: GdtEntry)
        ensures
            e == flat(0x9A, 0xAF),
    {
        GdtEntry { limit_low: 0xFFFF, base_low: 0, base_middle: 0, access: 0x9A, granularity: 0xAF, base_high: 0 }
    }

    /// Kernel data: present, ring 0, writable; 4 KiB granularity.
    pub fn data_segment() -> (e: GdtEntry)
        ensures
            e == flat(0x92, 0xCF),
    {
        GdtEntry { limit_low: 0xFFFF, base_low: 0, base_middle: 0, access: 0x92, granularity: 0xCF, base_high: 0 }
    }

    /// User code: present, ring 3, executable, readable; 64-bit, 4 KiB granularity.
    pub fn user_code_segment() -> (e: GdtEntry)
        ensures
            e == flat(0xFA, 0xAF),
    {
        GdtEntry { limit_low: 0xFFFF, base_low: 0, base_middle: 0, access: 0xFA, granularity: 0xAF, base_high: 0 }
    }

    /// User data: present, ring 3, writable; 4 KiB granularity.
    pub fn user_data_segment() -> (e: GdtEntry)
        ensures
            e == flat(0xF2, 0xCF),
    {
        GdtEntry { limit_low: 0xFFFF, base_low: 0, base_middle: 0, access: 0xF2, granularity: 0xCF, base_high: 0 }
    }
}

/// The little-endian bytes of the low `n` bytes of `v`.
pub open spec fn le_bytes(v: u64, n: nat) -> Seq<u8> {
    Seq::new(n, |i: int| ((v >> ((8 * i) as u64)) & 0xFF) as u8)
}

/// The ten bytes that LGDT and LIDT read: the limit, then the base, little-endian.
#[derive(Debug, Clone, Copy)]
pub struct GdtPointer {
    pub bytes: [u8; 10],
}

/// Write the ten pointer bytes for `limit` and `base`.
pub fn pointer_bytes(limit: u16, base: u64) -> (b: [u8; 10])
    ensures
        b@ == le_bytes(limit as u64, 2) + le_bytes(base, 8),
{
    let mut b = [0u8; 10];
    let l = limit as u64;
    b[0] = (l & 0xFF) as u8;
    b[1] = ((l >> 8) & 0xFF) as u8;
    let mut i: usize = 0;
    while i < 8
        invariant
            i <= 8,
            b@.len() == 10,
            b@[0] == (l & 0xFF) as u8,
            b@[1] == ((l >> 8) & 0xFF) as u8,
            forall|j: int| 2 <= j < 2 + i ==> #[trigger] b@[j] == ((base >> ((8 * (j - 2)) as u64)) & 0xFF) as u8,
        decreases 8 - i,
    {
        let shift: u64 = 8 * (i as u64);
        b[2 + i] = ((base >> shift) & 0xFF) as u8;
        i = i + 1;
    }
    assert(b@ =~= le_bytes(limit as u64, 2) + le_bytes(base, 8)) by {
        assert(l >> 0u64 == l) by (bit_vector);
        assert(le_bytes(limit as u64, 2)[0] == (l & 0xFF) as u8);
        assert(le_bytes(limit as u64, 2)[1] == ((l >> 8) & 0xFF) as u8);
    }
    b
}

impl GdtPointer {
    /// The pointer to a table of `limit + 1` bytes at `base`.
    pub fn new(limit: u16, base: u64) -> (p: GdtPointer)
        ensures
            p.bytes@ == le_bytes(limit as u64, 2) + le_bytes(base, 8),
    {
        GdtPointer { bytes: pointer_bytes(limit, base) }
    }
}

/// The table: null, kernel code, kernel data, user data, user code.
pub struct Gdt {
    pub entries: [GdtEntry; 5],
}

/// Size of the table in bytes, less one: five eight-byte descriptors.
pub const GDT_LIMIT: u16 = 39;

impl Gdt {
    /// The standard table.
    pub fn new() -> (g: Gdt)
        ensures
            g.entries@ == seq![
                GdtEntry { limit_low: 0, base_low: 0, base_middle: 0, access: 0, granularity: 0, base_high: 0 },
                flat(0x9A, 0xAF),
                flat(0x92, 0xCF),
                flat(0xF2, 0xCF),
                flat(0xFA, 0xAF),
            ],
    {
        let g = Gdt {
            entries: [
                GdtEntry::null(),
                GdtEntry::code_segment(),
                GdtEntry::data_segment(),
                GdtEntry::user_data_segment(),
                GdtEntry::user_code_segment(),
            ],
        };
        assert(g.entries@ =~= seq![
            GdtEntry { limit_low: 0, base_low: 0, base_middle: 0, access: 0, granularity: 0, base_high: 0 },
            flat(0x9A, 0xAF),
            flat(0x92, 0xCF),
            flat(0xF2, 0xCF),
            flat(0xFA, 0xAF),
        ]);
        g
    }

    /// The pointer that loads this table from address `base`.
    pub fn pointer(&self, base: u64) -> (p: GdtPointer)
        ensures
            p.bytes@ == le_bytes(GDT_LIMIT as u64, 2) + le_bytes(base, 8),
    {
        GdtPointer::new(GDT_LIMIT, base)
    }
}

} // verus!
