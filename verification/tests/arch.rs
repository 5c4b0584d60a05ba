use m5ros::arch::cpuid::{get_vendor, print_cpu_info, CpuFeatures, CpuVendor, CpuidResult, ExtendedCpuFeatures};
use m5ros::arch::gdt::{Gdt, GdtEntry, GdtPointer, GDT_LIMIT};
use m5ros::arch::idt::{exception_handler_rust, exception_name, Idt, IdtEntry, IdtPointer};
use m5ros::arch::pci::{
    config_address, enumerate_devices, find_device, find_devices_by_class, get_class_name, get_vendor_name, PciConfig,
    PciDevice,
};
use m5ros::arch::pic::{Pic, PIC1_COMMAND, PIC1_DATA, PIC2_COMMAND, PIC2_DATA, PIC_EOI};
use m5ros::arch::pit::{self, Timer};

#[test]
fn test_gdt_size() {
    assert_eq!(core::mem::size_of::<GdtEntry>(), 8);
    assert_eq!(core::mem::size_of::<GdtPointer>(), 10);
}

#[test]
fn test_idt_size() {
    assert_eq!(core::mem::size_of::<IdtEntry>(), 16);
    assert_eq!(core::mem::size_of::<IdtPointer>(), 10);
}

#[test]
fn gdt_has_standard_segments_and_pointer() {
    let g = Gdt::new();
    assert_eq!(g.entries[0].access, 0);
    assert_eq!(g.entries[1].access, 0x9A);
    assert_eq!(g.entries[1].granularity, 0xAF);
    assert_eq!(g.entries[2].access, 0x92);
    assert_eq!(g.entries[3].access, 0xF2);
    assert_eq!(g.entries[4].access, 0xFA);
    let p = g.pointer(0x1122_3344_5566_7788);
    assert_eq!(GDT_LIMIT, 39);
    assert_eq!(p.bytes, [39, 0, 0x88, 0x77, 0x66, 0x55, 0x44, 0x33, 0x22, 0x11]);
}

#[test]
fn idt_gate_splits_handler_address() {
    let e = IdtEntry::new(0x1234_5678_9ABC_DEF0, 0x08);
    assert_eq!(e.offset_low, 0xDEF0);
    assert_eq!(e.offset_mid, 0x9ABC);
    assert_eq!(e.offset_high, 0x1234_5678);
    assert_eq!(e.type_attr, 0x8E);
    assert_eq!(e.selector, 0x08);
    let mut idt = Idt::new();
    idt.set_handler(14, 0xABCD);
    assert_eq!(idt.entries[14].offset_low, 0xABCD);
    assert_eq!(idt.entries[13].type_attr, 0);
    let p = idt.pointer(0x1000);
    assert_eq!(&p.bytes[0..4], &[0xFF, 0x0F, 0x00, 0x10]);
}

#[test]
fn exception_report_names_page_fault_address() {
    assert_eq!(exception_name(14), "Page Fault");
    assert_eq!(exception_name(15), "Unknown Exception");
    let mut out: Vec<u8> = Vec::new();
    exception_handler_rust(14, 0, 0xDEADBEEF, &mut out);
    assert_eq!(
        String::from_utf8(out).unwrap(),
        "\n!!! EXCEPTION !!!\nException: Page Fault\nFaulting address: 0x00000000DEADBEEF\nSystem halted\n"
    );
    let mut out2: Vec<u8> = Vec::new();
    exception_handler_rust(0, 0, 0x1234, &mut out2);
    assert_eq!(String::from_utf8(out2).unwrap(), "\n!!! EXCEPTION !!!\nException: Division Error\nSystem halted\n");
}

fn reg(s: &[u8; 4]) -> u32 {
    u32::from_le_bytes(*s)
}

#[test]
fn cpuid_vendor_and_features() {
    let intel = CpuidResult { eax: 0, ebx: reg(b"Genu"), edx: reg(b"ineI"), ecx: reg(b"ntel") };
    let amd = CpuidResult { eax: 0, ebx: reg(b"Auth"), edx: reg(b"enti"), ecx: reg(b"cAMD") };
    let other = CpuidResult { eax: 0, ebx: 1, edx: 2, ecx: 3 };
    assert_eq!(get_vendor(intel), CpuVendor::Intel);
    assert_eq!(get_vendor(amd), CpuVendor::AMD);
    assert_eq!(get_vendor(other), CpuVendor::Unknown);
    let leaf1 = CpuidResult { eax: 0, ebx: 0, ecx: (1 << 0) | (1 << 28), edx: (1 << 0) | (1 << 25) };
    let f = CpuFeatures::detect(leaf1);
    assert!(f.has_fpu() && f.has_sse() && !f.has_sse2() && !f.has_tsc());
    let x = ExtendedCpuFeatures::detect(leaf1);
    assert!(x.has_sse3() && x.has_avx() && !x.has_sse4_1());
    let mut out: Vec<u8> = Vec::new();
    print_cpu_info(intel, leaf1, &mut out);
    assert_eq!(String::from_utf8(out).unwrap(), "CPU Info:\n  Vendor: Intel\n  Features: FPU SSE SSE3 AVX \n");
}

#[test]
fn pic_sequences() {
    let pic = Pic::new(32, 40);
    assert_eq!(pic.irq_vector(1), 33);
    assert_eq!(pic.irq_vector(12), 44);
    assert_eq!(pic.send_eoi(1), vec![(PIC1_COMMAND, PIC_EOI)]);
    assert_eq!(pic.send_eoi(12), vec![(PIC2_COMMAND, PIC_EOI), (PIC1_COMMAND, PIC_EOI)]);
    assert_eq!(pic.clear_mask(1, 0xFF), (PIC1_DATA, 0xFD));
    assert_eq!(pic.set_mask(9, 0x00), (PIC2_DATA, 0x02));
    let init = pic.init(0xAA, 0x55);
    assert_eq!(init.len(), 18);
    assert_eq!(init[0], (PIC1_COMMAND, 0x11));
    assert_eq!(init[4], (PIC1_DATA, 32));
    assert_eq!(init[17], (PIC2_DATA, 0x55));
    assert_eq!(pic.disable(), vec![(PIC1_DATA, 0xFF), (PIC2_DATA, 0xFF)]);
}

#[test]
fn pit_ticks_and_uptime() {
    let mut t = Timer::new();
    for _ in 0..250 {
        pit::tick(&mut t);
    }
    assert_eq!(pit::ticks(&t), 250);
    assert_eq!(pit::uptime_ms(&t), 2500);
    assert_eq!(pit::uptime_secs(&t), 2);
    let deadline = pit::sleep_ms(&t, 100);
    assert_eq!(deadline, 2600);
    assert!(!pit::sleep_elapsed(&t, deadline));
    let mut w = Timer { ticks: u64::MAX };
    pit::tick(&mut w);
    assert_eq!(w.ticks, 0);
    let init = pit::init();
    assert_eq!(init, vec![(0x43, 0x36), (0x40, (11931 & 0xFF) as u8), (0x40, (11931 >> 8) as u8)]);
}

fn empty_bus() -> PciConfig {
    PciConfig { words: vec![0xFFFF_FFFF; 16384] }
}

fn put_device(c: &mut PciConfig, slot: usize, vendor: u16, device: u16, class: u8, sub: u8) {
    let base = slot * 8 * 64;
    c.words[base] = (vendor as u32) | ((device as u32) << 16);
    c.words[base + 2] = ((class as u32) << 24) | ((sub as u32) << 16) | 0x01;
    c.words[base + 3] = 0x0080_0000;
}

#[test]
fn pci_enumeration_in_slot_order() {
    let mut c = empty_bus();
    put_device(&mut c, 2, 0x8086, 0x100E, 0x02, 0x00);
    put_device(&mut c, 5, 0x1234, 0x1111, 0x03, 0x00);
    let devs = enumerate_devices(&c);
    assert_eq!(devs.len(), 32);
    let first = devs[0].unwrap();
    assert_eq!((first.slot, first.vendor_id, first.device_id, first.class_code), (2, 0x8086, 0x100E, 2));
    assert_eq!(first.header_type, 0x80);
    assert_eq!(devs[1].unwrap().slot, 5);
    assert!(devs[2].is_none());
    let e1000 = find_device(&c, 0x8086, 0x100E).unwrap();
    assert_eq!(e1000.slot, 2);
    assert!(find_device(&c, 0x10EC, 0xB852).is_none());
    let display = find_devices_by_class(&c, 0x03, Some(0x00));
    assert_eq!(display.len(), 16);
    assert_eq!(display[0].unwrap().vendor_id, 0x1234);
    assert!(display[1].is_none());
    assert!(find_devices_by_class(&c, 0x03, Some(0x80))[0].is_none());
}

#[test]
fn pci_bar_and_command() {
    let mut c = empty_bus();
    put_device(&mut c, 1, 0x8086, 0x1234, 0x03, 0x00);
    let base = 1 * 8 * 64;
    c.words[base + 1] = 0x0000_0003;
    c.words[base + 4] = 0xFEB0_0008;
    c.words[base + 5] = 0;
    let d: PciDevice = enumerate_devices(&c)[0].unwrap();
    assert_eq!(d.get_bar(&c, 0, 0xFFF0_0008), Some((0xFEB0_0000, 0x0010_0000, true)));
    assert_eq!(d.get_bar(&c, 6, 0), None);
    assert_eq!(d.get_bar(&c, 1, 0), None);
    c.words[base + 5] = 0x0000_C001;
    assert_eq!(d.get_bar(&c, 1, 0xFFFF_FFE1), Some((0xC000, 0x20, false)));
    let (addr, value) = d.enable_bus_mastering(&c);
    assert_eq!(addr, config_address(0, 1, 0, 4));
    assert_eq!(value, 0x0000_0007);
    assert_eq!(d.read_config_u16(&c, 2), 0x1234);
    assert_eq!(d.read_config_u8(&c, 0x0B), 0x03);
    assert_eq!(config_address(0, 3, 1, 0x13), 0x8000_1910);
}

#[test]
fn pci_names() {
    assert_eq!(get_vendor_name(0x8086), "Intel Corporation");
    assert_eq!(get_vendor_name(0x1AF4), "Red Hat (VirtIO)");
    assert_eq!(get_vendor_name(0x0001), "Unknown Vendor");
    assert_eq!(get_class_name(0x02), "Network Controller");
    assert_eq!(get_class_name(0x11), "Data Acquisition Controller");
    assert_eq!(get_class_name(0x40), "Unknown Class");
}

#[test]
fn pci_lists_functions_of_multi_function_devices() {
    let mut c = empty_bus();
    put_device(&mut c, 1, 0x8086, 0x7000, 0x06, 0x01);
    // function 2 of slot 1
    let f2 = (1 * 8 + 2) * 64;
    c.words[f2] = 0x7010_8086;
    c.words[f2 + 2] = 0x0101_0000;
    c.words[f2 + 3] = 0;
    put_device(&mut c, 3, 0x1234, 0x1111, 0x03, 0x00);
    // slot 3 is single-function: its function 1 is not looked at
    c.words[3 * 8 * 64] = 0x1111_1234;
    c.words[3 * 8 * 64 + 3] = 0;
    let g1 = (3 * 8 + 1) * 64;
    c.words[g1] = 0x2222_1234;
    let devs = enumerate_devices(&c);
    let listed: Vec<(u8, u8, u16)> = devs.iter().flatten().map(|d| (d.slot, d.function, d.device_id)).collect();
    assert_eq!(listed, vec![(1, 0, 0x7000), (1, 2, 0x7010), (3, 0, 0x1111)]);
    assert_eq!(find_device(&c, 0x8086, 0x7010).unwrap().function, 2);
}
