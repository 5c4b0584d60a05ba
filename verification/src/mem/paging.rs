//! x86_64 4-level paging: page table entries, page tables and virtual / physical
//! addresses.

use vstd::prelude::*;

verus! {

/// Page size (4 KiB).
pub const PAGE_SIZE: usize = 4096;

/// Mask of the physical frame address bits of an entry.
pub const ADDRESS_MASK: u64 = 0x000f_ffff_ffff_f000;

/// Mask of all the flag bits that `PageTableFlags` knows.
pub const KNOWN_FLAGS: u64 = 0x8000_0000_0000_01ff;

/// Page table entry flags, as a set of bits.
#[derive(Debug, Clone, Copy, PartialEq, Eq, Structural)]
pub struct PageTableFlags {
    pub bits: u64,
}

impl PageTableFlags {
    // The bit of each flag.

    /// Page is present in memory.
    pub const PRESENT: u64 = 1;
    /// Page is writable.
    pub const WRITABLE: u64 = 2;
    /// Page is accessible from user mode.
    pub const USER_ACCESSIBLE: u64 = 4;
    /// Write-through caching.
    pub const WRITE_THROUGH: u64 = 8;
    /// Cache disabled.
    pub const NO_CACHE: u64 = 16;
    /// Page has been accessed.
    pub const ACCESSED: u64 = 32;
    /// Page has been written to.
    pub const DIRTY: u64 = 64;
    /// Huge page (2 MiB or 1 GiB).
    pub const HUGE_PAGE: u64 = 128;
    /// Global page (kept in the TLB across address space switches).
    pub const GLOBAL: u64 = 256;
    /// No execute.
    pub const NO_EXECUTE: u64 = 0x8000_0000_0000_0000;

    /// The flags named by `bits`, dropping the bits that name no flag.
    pub fn from_bits_truncate(bits: u64) -> (f: PageTableFlags)
        ensures
            f.bits == bits & KNOWN_FLAGS,
    {
        PageTableFlags { bits: bits & KNOWN_FLAGS }
    }

    /// The raw bits.
    pub fn bits(&self) -> (b: u64)
        ensures
            b == self.bits,
    {
        self.bits
    }

    /// Whether every flag of `other` is set in `self`.
    pub fn contains(&self, other: PageTableFlags) -> (b: bool)
        ensures
            b == (self.bits & other.bits == other.bits),
    {
        self.bits & other.bits == other.bits
    }

    /// The union of two sets of flags.
    pub fn union(self, other: PageTableFlags) -> (f: PageTableFlags)
        ensures
            f.bits == self.bits | other.bits,
    {
        PageTableFlags { bits: self.bits | other.bits }
    }
}

/// A page table entry: a frame address and flags in one 64-bit word.
#[derive(Clone, Copy)]
pub struct PageTableEntry {
    pub entry: u64,
}

impl PageTableEntry {
    /// An unused (zero) entry.
    pub fn new() -> (e: PageTableEntry)
        ensures
            e.entry == 0,
    {
        PageTableEntry { entry: 0 }
    }

    /// Whether the entry is zero.
    pub fn is_unused(&self) -> (b: bool)
        ensures
            b == (self.entry == 0),
    {
        self.entry == 0
    }

    /// Make the entry zero.
    pub fn set_unused(&mut self)
        ensures
            final(self).entry == 0,
    {
        self.entry = 0;
    }

    /// The entry's known flags.
    pub fn flags(&self) -> (f: PageTableFlags)
        ensures
            f.bits == self.entry & KNOWN_FLAGS,
    {
        PageTableFlags::from_bits_truncate(self.entry)
    }

    /// The frame address when the entry is present.
    pub fn frame(&self) -> (r: Option<usize>)
        ensures
            self.entry & 1 == 1 ==> r == Some((self.entry & ADDRESS_MASK) as usize),
            self.entry & 1 == 0 ==> r is None,
    {
        let e = self.entry;
        assert(((e & KNOWN_FLAGS) & 1 == 1) == (e & 1 == 1)) by (bit_vector);
        assert(e & 1 == 1 || e & 1 == 0) by (bit_vector);
        if self.flags().contains(PageTableFlags { bits: PageTableFlags::PRESENT }) {
            Some((self.entry & ADDRESS_MASK) as usize)
        } else {
            None
        }
    }

    /// Map the 4 KiB-aligned frame at `frame` with `flags`.
    pub fn set_frame(&mut self, frame: usize, flags: PageTableFlags)
        requires
            frame & 0xfff == 0,
        ensures
            final(self).entry == (frame as u64) | flags.bits,
    {
        self.entry = (frame as u64) | flags.bits;
    }

    /// Replace the flags, keeping the frame address.
    pub fn set_flags(&mut self, flags: PageTableFlags)
        ensures
            final(self).entry == (old(self).entry & ADDRESS_MASK) | flags.bits,
    {
        let frame = self.entry & ADDRESS_MASK;
        self.entry = frame | flags.bits;
    }
}

/// A page table of 512 entries.
pub struct PageTable {
    pub entries: Vec<PageTableEntry>,
}

impl PageTable {
    /// A table of 512 unused entries.
    pub fn new() -> (t: PageTable)
        ensures
            t.entries@.len() == 512,
            forall|i: int| 0 <= i < 512 ==> #[trigger] t.entries@[i].entry == 0,
    {
        let mut entries: Vec<PageTableEntry> = Vec::new();
        let mut i: usize = 0;
        while i < 512
            invariant
                i <= 512,
                entries@.len() == i,
                forall|j: int| 0 <= j < i ==> #[trigger] entries@[j].entry == 0,
            decreases 512 - i,
        {
            entries.push(PageTableEntry::new());
            i = i + 1;
        }
        PageTable { entries }
    }

    /// Make every entry unused.
    pub fn zero(&mut self)
        ensures
            final(self).entries@.len() == old(self).entries@.len(),
            forall|i: int| 0 <= i < final(self).entries@.len() ==> #[trigger] final(self).entries@[i].entry == 0,
    {
        let mut i: usize = 0;
        while i < self.entries.len()
            invariant
                i <= self.entries@.len(),
                self.entries@.len() == old(self).entries@.len(),
                forall|j: int| 0 <= j < i ==> #[trigger] self.entries@[j].entry == 0,
            decreases self.entries@.len() - i,
        {
            let mut e = self.entries[i];
            e.set_unused();
            self.entries.set(i, e);
            i = i + 1;
        }
    }

    /// The entry at `index`.
    pub fn index(&self, index: usize) -> (e: PageTableEntry)
        requires
            index < self.entries@.len(),
        ensures
            e == self.entries@[index as int],
    {
        self.entries[index]
    }

    /// Replace the entry at `index`.
    pub fn set(&mut self, index: usize, e: PageTableEntry)
        requires
            index < old(self).entries@.len(),
        ensures
            final(self).entries@ == old(self).entries@.update(index as int, e),
    {
        self.entries.set(index, e);
    }
}

/// The bit arithmetic of addresses: offsets, table indices and page rounding.
pub proof fn lemma_addr_bits(a: u64)
    by (bit_vector)
    ensures
        a & 0xfff == a % 4096,
        (a >> 39) & 0x1ff == (a / 0x80_0000_0000) % 512,
        (a >> 30) & 0x1ff == (a / 0x4000_0000) % 512,
        (a >> 21) & 0x1ff == (a / 0x20_0000) % 512,
        (a >> 12) & 0x1ff == (a / 4096) % 512,
        a & !0xfffu64 == a - a % 4096,
        a + 0xfff <= u64::MAX ==> (((a + 0xfff) as u64) & !0xfffu64) == if a % 4096 == 0 { a as int } else { a - a % 4096 + 4096 },
{
}

/// A 48-bit virtual address, sign-extended to 64 bits.
#[derive(Debug, Clone, Copy, PartialEq, Eq, PartialOrd, Ord)]
pub struct VirtAddr(pub u64);

/// Sign-extend bit 47 of `addr`.
pub open spec fn canonical(addr: u64) -> u64 {
    if addr & 0x8000_0000_0000 != 0 { addr | 0xffff_0000_0000_0000 } else { addr & 0x0000_ffff_ffff_ffff }
}

impl VirtAddr {
    /// The canonical address of `addr`: bits 48..64 copy bit 47.
    pub fn new(addr: u64) -> (v: VirtAddr)
        ensures
            v.0 == canonical(addr),
    {
        let sign_extended = if addr & 0x8000_0000_0000 != 0 {
            addr | 0xffff_0000_0000_0000
        } else {
            addr & 0x0000_ffff_ffff_ffff
        };
        VirtAddr(sign_extended)
    }

    /// Bits 0..12.
    pub fn page_offset(self) -> (r: u64)
        ensures
            r == self.0 % 4096,
    {
        let a = self.0;
        proof { lemma_addr_bits(a); }
        self.0 & 0xfff
    }

    /// The PML4 index, bits 39..48.
    pub fn p4_index(self) -> (r: usize)
        ensures
            r == (self.0 / 0x80_0000_0000) % 512,
    {
        let a = self.0;
        proof { lemma_addr_bits(a); }
        ((self.0 >> 39) & 0x1ff) as usize
    }

    /// The PDPT index, bits 30..39.
    pub fn p3_index(self) -> (r: usize)
        ensures
            r == (self.0 / 0x4000_0000) % 512,
    {
        let a = self.0;
        proof { lemma_addr_bits(a); }
        ((self.0 >> 30) & 0x1ff) as usize
    }

    /// The PD index, bits 21..30.
    pub fn p2_index(self) -> (r: usize)
        ensures
            r == (self.0 / 0x20_0000) % 512,
    {
        let a = self.0;
        proof { lemma_addr_bits(a); }
        ((self.0 >> 21) & 0x1ff) as usize
    }

    /// The PT index, bits 12..21.
    pub fn p1_index(self) -> (r: usize)
        ensures
            r == (self.0 / 4096) % 512,
    {
        let a = self.0;
        proof { lemma_addr_bits(a); }
        ((self.0 >> 12) & 0x1ff) as usize
    }

    /// Round down to a page boundary.
    pub fn align_down(self) -> (r: VirtAddr)
        ensures
            r.0 == self.0 - self.0 % 4096,
    {
        let a = self.0;
        proof { lemma_addr_bits(a); }
        VirtAddr(self.0 & !0xfff)
    }

    /// Round up to a page boundary.
    pub fn align_up(self) -> (r: VirtAddr)
        requires
            self.0 + 0xfff <= u64::MAX,
        ensures
            r.0 == if self.0 % 4096 == 0 { self.0 as int } else { self.0 - self.0 % 4096 + 4096 },
    {
        let a = self.0;
        proof { lemma_addr_bits(a); }
        VirtAddr((self.0 + 0xfff) & !0xfff)
    }

    /// Whether the address is on a page boundary.
    pub fn is_aligned(self) -> (b: bool)
        ensures
            b == (self.0 % 4096 == 0),
    {
        self.page_offset() == 0
    }
}

/// A 52-bit physical address.
#[derive(Debug, Clone, Copy, PartialEq, Eq, PartialOrd, Ord)]
pub struct PhysAddr(pub u64);

impl PhysAddr {
    /// Keep the low 52 bits of `addr`.
    pub fn new(addr: u64) -> (p: PhysAddr)
        ensures
            p.0 == addr % 0x10_0000_0000_0000,
    {
        assert(addr & 0x000f_ffff_ffff_ffff == addr % 0x10_0000_0000_0000) by (bit_vector);
        PhysAddr(addr & 0x000f_ffff_ffff_ffff)
    }

    /// Bits 0..12.
    pub fn page_offset(self) -> (r: u64)
        ensures
            r == self.0 % 4096,
    {
        let a = self.0;
        proof { lemma_addr_bits(a); }
        self.0 & 0xfff
    }

    /// Round down to a page boundary.
    pub fn align_down(self) -> (r: PhysAddr)
        ensures
            r.0 == self.0 - self.0 % 4096,
    {
        let a = self.0;
        proof { lemma_addr_bits(a); }
        PhysAddr(self.0 & !0xfff)
    }

    /// Round up to a page boundary.
    pub fn align_up(self) -> (r: PhysAddr)
        requires
            self.0 + 0xfff <= u64::MAX,
        ensures
            r.0 == if self.0 % 4096 == 0 { self.0 as int } else { self.0 - self.0 % 4096 + 4096 },
    {
        let a = self.0;
        proof { lemma_addr_bits(a); }
        PhysAddr((self.0 + 0xfff) & !0xfff)
    }

    /// Whether the address is on a page boundary.
    pub fn is_aligned(self) -> (b: bool)
        ensures
            b == (self.0 % 4096 == 0),
    {
        self.page_offset() == 0
    }
}

/// Walk the pages of the physical region `[start, align_up(start) + size)` and look up
/// each page's PML4 entry. No intermediate tables are allocated yet, so the table is
/// left as it was.
pub fn identity_map_region(pml4: &mut PageTable, start: PhysAddr, size: usize, flags: PageTableFlags)
    requires
        old(pml4).entries@.len() == 512,
        start.0 + 0xfff <= u64::MAX,
        start.0 + 0xfff <= usize::MAX,
        start.0 + 0xfff + size <= usize::MAX,
    ensures
        final(pml4).entries@ == old(pml4).entries@,
{
    let low = start.align_down();
    let high = start.align_up();
    let start_page = low.0 as usize;
    let end_page = high.0 as usize + size;
    let mut addr: usize = start_page;
    while addr < end_page
        invariant
            pml4.entries@ == old(pml4).entries@,
            pml4.entries@.len() == 512,
        decreases end_page - addr,
    {
        let virt = VirtAddr::new(addr as u64);
        let p4_index = virt.p4_index();
        let entry = pml4.index(p4_index);
        if entry.is_unused() {
            // The page directory pointer table for this slot is not built yet.
        }
        if end_page - addr <= PAGE_SIZE {
            break;
        }
        addr = addr + PAGE_SIZE;
    }
}

/// Setting a frame and reading it back: a present entry gives back the frame address.
pub proof fn law_set_frame_then_frame(frame: u64, flags: u64)
    requires
        frame & 0xfff == 0,
        frame < 0x10_0000_0000_0000,
        flags & 1 == 1,
        flags & ADDRESS_MASK == 0,
    ensures
        (frame | flags) & 1 == 1,
        (frame | flags) & ADDRESS_MASK == frame,
{
    assert((frame | flags) & 1 == 1) by (bit_vector)
        requires flags & 1 == 1;
    assert((frame | flags) & ADDRESS_MASK == frame) by (bit_vector)
        requires frame & 0xfff == 0, frame < 0x10_0000_0000_0000, flags & 0x000f_ffff_ffff_f000 == 0;
}

/// `set_flags` keeps the frame address.
pub proof fn law_set_flags_keeps_frame(entry: u64, flags: u64)
    requires
        flags & ADDRESS_MASK == 0,
    ensures
        ((entry & ADDRESS_MASK) | flags) & ADDRESS_MASK == entry & ADDRESS_MASK,
{
    assert(((entry & ADDRESS_MASK) | flags) & ADDRESS_MASK == entry & ADDRESS_MASK) by (bit_vector)
        requires flags & 0x000f_ffff_ffff_f000 == 0;
}

/// The four table indices and the page offset put the address back together (for an
/// address below 2^48).
pub proof fn law_indices_recompose(a: u64)
    requires
        a < 0x1_0000_0000_0000,
    ensures
        a == (a / 0x80_0000_0000) % 512 * 0x80_0000_0000 + (a / 0x4000_0000) % 512 * 0x4000_0000
            + (a / 0x20_0000) % 512 * 0x20_0000 + (a / 4096) % 512 * 4096 + a % 4096,
{
    assert(a == (a / 0x80_0000_0000) % 512 * 0x80_0000_0000 + (a / 0x4000_0000) % 512 * 0x4000_0000
            + (a / 0x20_0000) % 512 * 0x20_0000 + (a / 4096) % 512 * 4096 + a % 4096) by (bit_vector)
        requires a < 0x1_0000_0000_0000;
}

} // verus!
