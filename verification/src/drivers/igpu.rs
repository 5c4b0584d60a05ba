//! Integrated graphics (Intel HD / AMD APU): finding the display controller on the PCI
//! bus and describing it.

use vstd::prelude::*;
use crate::arch::pci::{
    bar_info, class_matches, enable_writes, enabled_words, find_devices_by_class, probe, found, padded, with_class, with_command_bit, PciConfig,
    PciDevice, PCI_CLASS_DISPLAY, PCI_COMMAND, PCI_SUBCLASS_VGA, VENDOR_AMD, VENDOR_INTEL,
};

verus! {

/// GPU vendor.
#[derive(Debug, Clone, Copy, PartialEq, Eq, Structural)]
pub enum IgpuVendor {
    Intel,
    AMD,
    Unknown,
}

/// What the driver tells of the GPU.
#[derive(Debug, Clone, Copy)]
pub struct IgpuInfo {
    pub vendor: IgpuVendor,
    pub device_id: u16,
    pub vendor_id: u16,
    pub framebuffer_addr: u64,
    pub framebuffer_size: u32,
}

/// The driver's state: whether it is set up, and the device it drives.
pub struct Igpu {
    pub initialized: bool,
    pub device: Option<PciDevice>,
}

/// The vendor of a vendor id.
pub open spec fn vendor_kind(vendor_id: u16) -> IgpuVendor {
    if vendor_id == VENDOR_INTEL {
        IgpuVendor::Intel
    } else if vendor_id == VENDOR_AMD {
        IgpuVendor::AMD
    } else {
        IgpuVendor::Unknown
    }
}

/// The first Intel or AMD device of a list.
pub open spec fn first_igpu(list: Seq<PciDevice>) -> Option<PciDevice>
    decreases list.len(),
{
    if list.len() == 0 {
        None
    } else if list[0].vendor_id == VENDOR_INTEL || list[0].vendor_id == VENDOR_AMD {
        Some(list[0])
    } else {
        first_igpu(list.drop_first())
    }
}

/// The VGA display controllers among the first 16 found.
pub open spec fn vga_candidates(config: PciConfig) -> Seq<PciDevice> {
    let all = with_class(found(config, 32), PCI_CLASS_DISPLAY, Some(PCI_SUBCLASS_VGA));
    if all.len() <= 16 { all } else { all.take(16) }
}

impl Igpu {
    /// A driver that is not set up.
    pub fn new() -> (g: Igpu)
        ensures
            !g.initialized,
            g.device is None,
    {
        Igpu { initialized: false, device: None }
    }
}

/// Set the driver up: take the first Intel or AMD VGA controller on bus 0 and enable its
/// memory space and bus mastering (the command register writes are returned, and kept
/// in `config`).
pub fn init(gpu: &mut Igpu, config: &mut PciConfig) -> (r: Result<Vec<(u32, u32)>, &'static str>)
    requires
        old(config).wf(),
    ensures
        final(config).wf(),
        old(gpu).initialized ==> (r matches Err(e) && e@ == "Integrated graphics already initialized"@)
            && *final(gpu) == *old(gpu) && *final(config) == *old(config),
        !old(gpu).initialized && first_igpu(vga_candidates(*old(config))) is None ==> (r matches Err(e)
            && e@ == "No integrated graphics device found"@) && *final(gpu) == *old(gpu)
            && *final(config) == *old(config),
        !old(gpu).initialized ==> (first_igpu(vga_candidates(*old(config))) matches Some(d)
            ==> (r matches Ok(w) && w@ == enable_writes(*old(config), d))
            && final(config).words@ == enabled_words(*old(config), d)
            && final(gpu).initialized && final(gpu).device == Some(d)),
{
    if gpu.initialized {
        return Err("Integrated graphics already initialized");
    }
    let devices = find_devices_by_class(config, PCI_CLASS_DISPLAY, Some(PCI_SUBCLASS_VGA));
    let ghost cands = vga_candidates(*config);
    proof {
        assert(devices@ == padded(with_class(found(*config, 32), PCI_CLASS_DISPLAY, Some(PCI_SUBCLASS_VGA)), 16));
        assert forall|k: int| 0 <= k < 16 implies #[trigger] devices@[k] == (if k < cands.len() { Some(cands[k]) } else { None }) by {}
        assert(cands.skip(0) =~= cands);
    }
    let mut i: usize = 0;
    while i < devices.len()
        invariant
            devices@.len() == 16,
            forall|k: int| 0 <= k < 16 ==> #[trigger] devices@[k] == (if k < cands.len() { Some(cands[k]) } else { None }),
            cands.len() <= 16,
            i <= 16,
            i <= cands.len() ==> first_igpu(cands) == first_igpu(cands.skip(i as int)),
            i > cands.len() ==> first_igpu(cands) is None,
            *gpu == *old(gpu),
            *config == *old(config),
            config.wf(),
            !gpu.initialized,
            cands == vga_candidates(*old(config)),
        decreases 16 - i,
    {
        let entry = devices[i];
        match entry {
            Some(device) => {
                proof {
                    assert(cands.skip(i as int)[0] == cands[i as int]);
                    assert(cands.skip(i as int).drop_first() =~= cands.skip(i + 1));
                }
                if device.vendor_id == VENDOR_INTEL || device.vendor_id == VENDOR_AMD {
                    proof {
                        lemma_found_on_bus0(*config, cands, i as int);
                    }
                    gpu.device = Some(device);
                    let (a1, v1) = device.enable_memory_space(config);
                    config.store(device.slot, device.function, PCI_COMMAND, v1);
                    let (a2, v2) = device.enable_bus_mastering(config);
                    config.store(device.slot, device.function, PCI_COMMAND, v2);
                    gpu.initialized = true;
                    let mut writes: Vec<(u32, u32)> = Vec::new();
                    writes.push((a1, v1));
                    writes.push((a2, v2));
                    return Ok(writes);
                }
            },
            None => {
                proof {
                    if i <= cands.len() {
                        assert(i == cands.len());
                        assert(cands.skip(i as int) =~= Seq::<PciDevice>::empty());
                    }
                }
            },
        }
        i = i + 1;
    }
    proof {
        if cands.len() == 16 {
            assert(cands.skip(16) =~= Seq::<PciDevice>::empty());
        }
    }
    Err("No integrated graphics device found")
}

/// Every function that the scan finds sits on bus 0 in a slot below 32, function 0.
proof fn lemma_found_on_bus0(config: PciConfig, cands: Seq<PciDevice>, i: int)
    requires
        cands == vga_candidates(config),
        0 <= i < cands.len(),
    ensures
        cands[i].bus == 0 && cands[i].slot < 32 && cands[i].function < 8,
{
    lemma_with_class_members(found(config, 32), PCI_CLASS_DISPLAY, Some(PCI_SUBCLASS_VGA));
    crate::arch::pci::lemma_found_on_bus0(config, 32);
    let all = with_class(found(config, 32), PCI_CLASS_DISPLAY, Some(PCI_SUBCLASS_VGA));
    assert(cands[i] == all[i]);
    let list = found(config, 32);
    assert(i < all.len());
    assert(exists|j: int| 0 <= j < list.len() && list[j] == all[i]);
    let j = choose|j: int| 0 <= j < list.len() && list[j] == all[i];
    assert(0 <= j < list.len());
    assert(found(config, 32)[j].bus == 0);
    assert(list[j].on_bus0());
    assert(list[j].bus == 0 && list[j].slot < 32 && list[j].function < 8);
}

proof fn lemma_with_class_members(list: Seq<PciDevice>, class_code: u8, subclass: Option<u8>)
    ensures
        forall|k: int| 0 <= k < with_class(list, class_code, subclass).len() ==>
            exists|j: int| 0 <= j < list.len() && list[j] == #[trigger] with_class(list, class_code, subclass)[k],
    decreases list.len(),
{
    if list.len() > 0 {
        lemma_with_class_members(list.drop_last(), class_code, subclass);
        let rest = with_class(list.drop_last(), class_code, subclass);
        let all = with_class(list, class_code, subclass);
        assert forall|k: int| 0 <= k < all.len() implies exists|j: int| 0 <= j < list.len() && list[j] == #[trigger] all[k] by {
            if k < rest.len() {
                assert(all[k] == rest[k]);
                let j = choose|j: int| 0 <= j < list.drop_last().len() && list.drop_last()[j] == rest[k];
                assert(list[j] == list.drop_last()[j]);
            } else {
                assert(all[k] == list.last());
                assert(list[list.len() - 1] == list.last());
            }
        }
    }
}

/// Whether the driver is set up.
pub fn is_initialized(gpu: &Igpu) -> (b: bool)
    ensures
        b == gpu.initialized,
{
    gpu.initialized
}

/// The GPU's description, when the driver is set up: vendor, ids, and BAR 0 as its
/// framebuffer (zero when BAR 0 gives nothing), given the BAR 0 size probe.
pub fn get_info(gpu: &Igpu, config: &PciConfig, bar0_size_mask: u32) -> (r: Option<IgpuInfo>)
    requires
        config.wf(),
        gpu.device matches Some(d) ==> d.on_bus0(),
    ensures
        !gpu.initialized ==> r is None,
        gpu.initialized && gpu.device is None ==> r is None,
        gpu.initialized ==> (gpu.device matches Some(d) ==> (r matches Some(info)
            && info.vendor == vendor_kind(d.vendor_id)
            && info.device_id == d.device_id
            && info.vendor_id == d.vendor_id
            && (match bar_info(config.word(d.slot as int, d.function as int, 0x10), bar0_size_mask,
                    config.word(d.slot as int, d.function as int, 0x14)) {
                Some(b) => info.framebuffer_addr == b.0 && info.framebuffer_size == b.1,
                None => info.framebuffer_addr == 0 && info.framebuffer_size == 0,
            }))),
{
    if !is_initialized(gpu) {
        return None;
    }
    match gpu.device {
        Some(device) => {
            let vendor = match device.vendor_id {
                VENDOR_INTEL => IgpuVendor::Intel,
                VENDOR_AMD => IgpuVendor::AMD,
                _ => IgpuVendor::Unknown,
            };
            let (fb_addr, fb_size, _prefetchable) = match device.get_bar(config, 0, bar0_size_mask) {
                Some(b) => b,
                None => (0, 0, false),
            };
            Some(IgpuInfo {
                vendor,
                device_id: device.device_id,
                vendor_id: device.vendor_id,
                framebuffer_addr: fb_addr,
                framebuffer_size: fb_size,
            })
        },
        None => None,
    }
}

/// The device driven.
pub fn get_device(gpu: &Igpu) -> (d: Option<PciDevice>)
    ensures
        d == gpu.device,
{
    gpu.device
}

/// The vendor of the GPU, when the driver is set up.
pub fn get_vendor(gpu: &Igpu) -> (v: Option<IgpuVendor>)
    ensures
        gpu.initialized ==> (gpu.device matches Some(d) ==> v == Some(vendor_kind(d.vendor_id))),
        !(gpu.initialized && gpu.device is Some) ==> v is None,
{
    if !is_initialized(gpu) {
        return None;
    }
    match gpu.device {
        Some(device) => Some(match device.vendor_id {
            VENDOR_INTEL => IgpuVendor::Intel,
            VENDOR_AMD => IgpuVendor::AMD,
            _ => IgpuVendor::Unknown,
        }),
        None => None,
    }
}

/// The vendor as text.
pub fn get_vendor_name(gpu: &Igpu) -> (s: &'static str)
    ensures
        s@ == match (if gpu.initialized && gpu.device is Some { Some(vendor_kind(gpu.device->0.vendor_id)) } else { None }) {
            Some(IgpuVendor::Intel) => "Intel"@,
            Some(IgpuVendor::AMD) => "AMD"@,
            Some(IgpuVendor::Unknown) => "Unknown"@,
            None => "Not initialized"@,
        },
{
    match get_vendor(gpu) {
        Some(IgpuVendor::Intel) => "Intel",
        Some(IgpuVendor::AMD) => "AMD",
        Some(IgpuVendor::Unknown) => "Unknown",
        None => "Not initialized",
    }
}

/// The marketing name of an Intel GPU device id.
pub open spec fn intel_model(id: u16) -> Seq<char> {
    if id == 0x0102 { "Intel HD Graphics 2000"@ }
    else if id == 0x0112 || id == 0x0122 { "Intel HD Graphics 3000"@ }
    else if id == 0x0152 { "Intel HD Graphics 2500"@ }
    else if id == 0x0162 || id == 0x0166 { "Intel HD Graphics 4000"@ }
    else if id == 0x0412 || id == 0x0416 { "Intel HD Graphics 4600"@ }
    else if id == 0x041E { "Intel HD Graphics 4400"@ }
    else if id == 0x0A16 { "Intel HD Graphics"@ }
    else if id == 0x0A26 { "Intel HD Graphics 5000"@ }
    else if id == 0x1612 { "Intel HD Graphics 5600"@ }
    else if id == 0x1616 { "Intel HD Graphics 5500"@ }
    else if id == 0x161E { "Intel HD Graphics 5300"@ }
    else if id == 0x191B || id == 0x1912 { "Intel HD Graphics 530"@ }
    else if id == 0x1916 { "Intel HD Graphics 520"@ }
    else if id == 0x5916 { "Intel HD Graphics 620"@ }
    else if id == 0x5912 { "Intel HD Graphics 630"@ }
    else if id == 0x3E92 || id == 0x3E9B || id == 0x9BC8 { "Intel UHD Graphics 630"@ }
    else { "Intel Integrated Graphics"@ }
}

/// The marketing name of an AMD GPU device id.
pub open spec fn amd_model(id: u16) -> Seq<char> {
    if id == 0x9830 { "AMD Radeon HD 8400"@ }
    else if id == 0x9831 { "AMD Radeon HD 8400E"@ }
    else if id == 0x9832 { "AMD Radeon HD 8330"@ }
    else if id == 0x9833 { "AMD Radeon HD 8330E"@ }
    else if id == 0x9850 || id == 0x9851 { "AMD Radeon R7 Graphics"@ }
    else if id == 0x9852 || id == 0x9853 { "AMD Radeon R5 Graphics"@ }
    else if id == 0x15D8 { "AMD Radeon Vega Graphics"@ }
    else if id == 0x15DD { "AMD Radeon Vega 8 Graphics"@ }
    else if id == 0x1636 || id == 0x164C { "AMD Radeon Vega 3 Graphics"@ }
    else { "AMD Integrated Graphics"@ }
}

/// The description of a GPU with these vendor and device ids.
pub open spec fn gpu_title(vendor_id: u16, device_id: u16) -> Seq<char> {
    match vendor_kind(vendor_id) {
        IgpuVendor::Intel => intel_model(device_id),
        IgpuVendor::AMD => amd_model(device_id),
        IgpuVendor::Unknown => "Unknown Integrated Graphics"@,
    }
}

fn intel_description(id: u16) -> (s: &'static str)
    ensures
        s@ == intel_model(id),
{
    match id {
        0x0102 => "Intel HD Graphics 2000",
        0x0112 => "Intel HD Graphics 3000",
        0x0122 => "Intel HD Graphics 3000",
        0x0152 => "Intel HD Graphics 2500",
        0x0162 => "Intel HD Graphics 4000",
        0x0166 => "Intel HD Graphics 4000",
        0x0412 => "Intel HD Graphics 4600",
        0x0416 => "Intel HD Graphics 4600",
        0x041E => "Intel HD Graphics 4400",
        0x0A16 => "Intel HD Graphics",
        0x0A26 => "Intel HD Graphics 5000",
        0x1612 => "Intel HD Graphics 5600",
        0x1616 => "Intel HD Graphics 5500",
        0x161E => "Intel HD Graphics 5300",
        0x191B => "Intel HD Graphics 530",
        0x1916 => "Intel HD Graphics 520",
        0x1912 => "Intel HD Graphics 530",
        0x5916 => "Intel HD Graphics 620",
        0x5912 => "Intel HD Graphics 630",
        0x3E92 => "Intel UHD Graphics 630",
        0x3E9B => "Intel UHD Graphics 630",
        0x9BC8 => "Intel UHD Graphics 630",
        _ => "Intel Integrated Graphics",
    }
}

fn amd_description(id: u16) -> (s: &'static str)
    ensures
        s@ == amd_model(id),
{
    match id {
        0x9830 => "AMD Radeon HD 8400",
        0x9831 => "AMD Radeon HD 8400E",
        0x9832 => "AMD Radeon HD 8330",
        0x9833 => "AMD Radeon HD 8330E",
        0x9850 => "AMD Radeon R7 Graphics",
        0x9851 => "AMD Radeon R7 Graphics",
        0x9852 => "AMD Radeon R5 Graphics",
        0x9853 => "AMD Radeon R5 Graphics",
        0x15D8 => "AMD Radeon Vega Graphics",
        0x15DD => "AMD Radeon Vega 8 Graphics",
        0x1636 => "AMD Radeon Vega 3 Graphics",
        0x164C => "AMD Radeon Vega 3 Graphics",
        _ => "AMD Integrated Graphics",
    }
}

/// A human-readable description of the GPU: its model from the device id table of its
/// vendor, or why there is none.
pub fn get_description(gpu: &Igpu) -> (s: &'static str)
    ensures
        !gpu.initialized ==> s@ == "No integrated graphics"@,
        gpu.initialized && gpu.device is None ==> s@ == "Unknown"@,
        gpu.initialized ==> (gpu.device matches Some(d) ==> s@ == gpu_title(d.vendor_id, d.device_id)),
{
    if !is_initialized(gpu) {
        return "No integrated graphics";
    }
    match gpu.device {
        Some(device) => {
            if device.vendor_id == VENDOR_INTEL {
                intel_description(device.device_id)
            } else if device.vendor_id == VENDOR_AMD {
                amd_description(device.device_id)
            } else {
                "Unknown Integrated Graphics"
            }
        },
        None => "Unknown",
    }
}

/// Set a display mode: not supported; the bootloader's mode is kept.
pub fn set_mode(gpu: &Igpu, width: u32, height: u32, bpp: u32) -> (r: Result<(), &'static str>)
    ensures
        !gpu.initialized ==> (r matches Err(e) && e@ == "Integrated graphics not initialized"@),
        gpu.initialized ==> (r matches Err(e) && e@ == "Display mode setting not yet implemented"@),
{
    if !is_initialized(gpu) {
        return Err("Integrated graphics not initialized");
    }
    Err("Display mode setting not yet implemented")
}

} // verus!
