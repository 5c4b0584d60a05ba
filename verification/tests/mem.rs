use m5ros::mem::frame_allocator::{self, Frame, FrameAllocator, FRAME_SIZE};
use m5ros::mem::heap::{align_up, stats, LinkedListAllocator, HEAP_SIZE};
use m5ros::mem::paging::{identity_map_region, PageTable, PageTableEntry, PageTableFlags, PhysAddr, VirtAddr};

#[test]
fn test_align_up() {
    assert_eq!(align_up(0, 4), 0);
    assert_eq!(align_up(1, 4), 4);
    assert_eq!(align_up(4, 4), 4);
    assert_eq!(align_up(5, 4), 8);
}

#[test]
fn test_virt_addr_indices() {
    let addr = VirtAddr::new(0x0000_7fff_ffff_ffff);
    assert_eq!(addr.p4_index(), 255);
    assert_eq!(addr.p3_index(), 511);
    assert_eq!(addr.p2_index(), 511);
    assert_eq!(addr.p1_index(), 511);
    assert_eq!(addr.page_offset(), 0xfff);
}

#[test]
fn test_addr_alignment() {
    let addr = VirtAddr::new(0x1234);
    assert!(!addr.is_aligned());
    assert_eq!(addr.align_down().0, 0x1000);
    assert_eq!(addr.align_up().0, 0x2000);
}

#[test]
fn test_frame_allocation() {
    let mut a = FrameAllocator::new();
    frame_allocator::init(&mut a, 0x10_0000, 0x10_0000 + 8 * FRAME_SIZE);
    let f1 = frame_allocator::allocate_frame(&mut a).unwrap();
    let f2 = frame_allocator::allocate_frame(&mut a).unwrap();
    assert_ne!(f1, f2);
    assert!(frame_allocator::is_frame_allocated(&a, f1));
    assert!(frame_allocator::is_frame_allocated(&a, f2));
    frame_allocator::deallocate_frame(&mut a, f1);
    assert!(!frame_allocator::is_frame_allocated(&a, f1));
    let (total, used, free) = frame_allocator::stats(&a);
    assert_eq!(used + free, total);
}

#[test]
fn frame_addresses() {
    let f = Frame::containing_address(0x5123);
    assert_eq!(f.start_address(), 0x5000);
}

#[test]
fn virt_addr_sign_extends() {
    assert_eq!(VirtAddr::new(0x0000_8000_0000_0000).0, 0xffff_8000_0000_0000);
    assert_eq!(VirtAddr::new(0xabcd_0000_1234_5678).0, 0x0000_0000_1234_5678);
    assert_eq!(PhysAddr::new(0xfff0_0000_0000_1234).0, 0x0000_0000_0000_1234);
    assert!(PhysAddr::new(0x3000).is_aligned());
}

#[test]
fn page_table_entries() {
    let mut e = PageTableEntry::new();
    assert!(e.is_unused());
    assert_eq!(e.frame(), None);
    let flags = PageTableFlags::from_bits_truncate(PageTableFlags::PRESENT | PageTableFlags::WRITABLE);
    e.set_frame(0x20_0000, flags);
    assert_eq!(e.frame(), Some(0x20_0000));
    e.set_flags(PageTableFlags::from_bits_truncate(PageTableFlags::WRITABLE));
    assert_eq!(e.frame(), None);
    assert_eq!(e.entry & 0x000f_ffff_ffff_f000, 0x20_0000);
    assert!(flags.contains(PageTableFlags::from_bits_truncate(PageTableFlags::PRESENT)));
    let mut t = PageTable::new();
    t.set(3, e);
    assert!(!t.index(3).is_unused());
    identity_map_region(&mut t, PhysAddr::new(0x1000), 0x3000, flags);
    assert!(!t.index(3).is_unused());
    t.zero();
    assert!(t.index(3).is_unused());
}

#[test]
fn heap_first_fit_and_stats() {
    let mut h = LinkedListAllocator::new();
    h.init(0x10000, 4096);
    let a = h.allocate(96, 8);
    assert_eq!(a, 0x10000);
    assert_eq!(h.regions, vec![(0x10060, 4000)]);
    let b = h.allocate(10, 64);
    assert_eq!(b, 0x10080);
    assert_eq!(h.regions, vec![(0x10090, 3952), (0x10060, 32)]);
    assert_eq!(stats(&h), (HEAP_SIZE - 3984, 3984));
    let too_big = h.allocate(1 << 20, 8);
    assert_eq!(too_big, 0);
    h.dealloc(a, 96);
    assert_eq!(h.regions, vec![(0x10000, 128), (0x10090, 3952)]);
    assert_eq!(stats(&h).1, 3984 + 96);
}

#[test]
fn heap_splits_tails_aligned_and_coalesces() {
    let mut h = LinkedListAllocator::new();
    h.init(0x10000, 4096);
    // after a 17-byte block the free rest starts at the next multiple of 8
    let a = h.allocate(17, 1);
    assert_eq!(a, 0x10000);
    assert_eq!(h.regions, vec![(0x10018, 4072)]);
    let b = h.allocate(40, 8);
    assert_eq!(b, 0x10018);
    assert_eq!(h.regions, vec![(0x10040, 4032)]);
    // freeing b merges it with the free region after it
    assert!(h.dealloc_admits(b, 40));
    h.dealloc(b, 40);
    assert_eq!(h.regions, vec![(0x10018, 4072)]);
    // a block that is already free may not be freed again
    assert!(!h.dealloc_admits(0x10020, 16));
    assert!(!h.dealloc_admits(0x10004, 16));
    // freeing a gives back its 17 bytes; the 7 bytes of padding after it stay out
    h.dealloc(a, 17);
    assert_eq!(h.regions, vec![(0x10000, 17), (0x10018, 4072)]);
    assert_eq!(stats(&h), (HEAP_SIZE - 4089, 4089));
}

#[test]
fn heap_block_between_two_free_regions() {
    let mut h = LinkedListAllocator::new();
    h.init(0x20000, 256);
    let a = h.allocate(64, 64);
    let b = h.allocate(64, 64);
    let c = h.allocate(64, 64);
    assert_eq!((a, b, c), (0x20000, 0x20040, 0x20080));
    h.dealloc(a, 64);
    h.dealloc(c, 64);
    assert_eq!(h.regions, vec![(0x20080, 128), (0x20000, 64)]);
    h.dealloc(b, 64);
    assert_eq!(h.regions, vec![(0x20000, 256)]);
}

#[test]
fn heap_block_that_fills_a_small_region() {
    let mut h = LinkedListAllocator::new();
    h.init(8, 17);
    assert_eq!(h.allocate(17, 1), 8);
    assert!(h.regions.is_empty());
    let mut g = LinkedListAllocator::new();
    g.init(8, 17);
    assert_eq!(g.allocate(18, 1), 0);
    assert_eq!(g.regions, vec![(8, 17)]);
}
