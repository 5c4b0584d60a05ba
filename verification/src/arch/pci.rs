//! PCI configuration space: device discovery on bus 0, BAR decoding and the command
//! register. Configuration reads come from a snapshot of bus 0 taken through the
//! configuration ports; writes are returned as (address, value) pairs for those ports.

use vstd::prelude::*;

verus! {

/// Configuration address port.
pub const PCI_CONFIG_ADDRESS: u16 = 0xCF8;
/// Configuration data port.
pub const PCI_CONFIG_DATA: u16 = 0xCFC;

/// Offset of the vendor id.
pub const PCI_VENDOR_ID: u8 = 0x00;
/// Offset of the command register.
pub const PCI_COMMAND: u8 = 0x04;
/// Offset of the revision id.
pub const PCI_REVISION_ID: u8 = 0x08;
/// Offset of the header type.
pub const PCI_HEADER_TYPE: u8 = 0x0E;
/// Offset of the first base address register.
pub const PCI_BAR0: u8 = 0x10;

/// Display controller class.
pub const PCI_CLASS_DISPLAY: u8 = 0x03;
/// Network controller class.
pub const PCI_CLASS_NETWORK: u8 = 0x02;
/// Bridge class.
pub const PCI_CLASS_BRIDGE: u8 = 0x06;
/// VGA subclass of display controllers.
pub const PCI_SUBCLASS_VGA: u8 = 0x00;
/// Ethernet subclass of network controllers.
pub const PCI_SUBCLASS_ETHERNET: u8 = 0x00;
/// Wireless subclass of network controllers.
pub const PCI_SUBCLASS_WIRELESS: u8 = 0x80;

/// Intel.
pub const VENDOR_INTEL: u16 = 0x8086;
/// AMD.
pub const VENDOR_AMD: u16 = 0x1022;
/// Realtek.
pub const VENDOR_REALTEK: u16 = 0x10EC;
/// Intel 82540EM (E1000).
pub const DEVICE_E1000: u16 = 0x100E;
/// Realtek RTL8852BE.
pub const DEVICE_RTL8852BE: u16 = 0xB852;

/// Slots on a bus.
pub const PCI_SLOTS: usize = 32;
/// Functions of a slot.
pub const PCI_FUNCTIONS: usize = 8;
/// 32-bit words of one function's configuration space.
pub const CONFIG_WORDS: usize = 64;
/// 32-bit words of bus 0's configuration space.
pub const BUS_WORDS: usize = 16384;

/// A PCI function found on the bus.
#[derive(Debug, Clone, Copy)]
pub struct PciDevice {
    pub bus: u8,
    pub slot: u8,
    pub function: u8,
    pub vendor_id: u16,
    pub device_id: u16,
    pub class_code: u8,
    pub subclass: u8,
    pub prog_if: u8,
    pub revision_id: u8,
    pub header_type: u8,
}

/// The configuration space of every function on bus 0, as read: the word at `offset`
/// of slot `s`, function `f` is `words[(s * 8 + f) * 64 + offset / 4]`.
pub struct PciConfig {
    pub words: Vec<u32>,
}

impl PciConfig {
    /// The snapshot covers the whole bus.
    pub open spec fn wf(&self) -> bool {
        self.words@.len() == BUS_WORDS
    }

    /// Record a write of `value` at `offset` of a function on bus 0, as reading it back
    /// would show.
    pub fn store(&mut self, slot: u8, function: u8, offset: u8, value: u32)
        requires
            old(self).wf(),
            slot < 32,
            function < 8,
        ensures
            final(self).wf(),
            final(self).words@ == old(self).words@.update((slot * 8 + function) * 64 + (offset / 4), value),
    {
        let idx: usize = (slot as usize * 8 + function as usize) * 64 + (offset as usize) / 4;
        self.words.set(idx, value);
    }

    /// The word at `offset` (rounded down to a word) of slot `slot`, function `function`.
    pub open spec fn word(&self, slot: int, function: int, offset: int) -> u32 {
        self.words@[(slot * 8 + function) * 64 + (offset / 4)]
    }
}

/// The value written to the address port to reach `offset` of a function.
pub open spec fn address_of(bus: u8, slot: u8, function: u8, offset: u8) -> u32 {
    0x80000000u32 | ((bus as u32) << 16u32) | ((slot as u32) << 11u32) | ((function as u32) << 8u32)
        | ((offset as u32) & 0xFCu32)
}

/// The configuration address of `offset` of a function: enable bit, bus, slot,
/// function and the offset rounded down to a word.
pub fn config_address(bus: u8, slot: u8, function: u8, offset: u8) -> (a: u32)
    ensures
        a == address_of(bus, slot, function, offset),
{
    0x80000000 | ((bus as u32) << 16) | ((slot as u32) << 11) | ((function as u32) << 8) | ((offset as u32) & 0xFC)
}

/// Read the configuration word at `offset` of a function on bus 0.
pub fn read_config_u32(config: &PciConfig, bus: u8, slot: u8, function: u8, offset: u8) -> (v: u32)
    requires
        config.wf(),
        bus == 0,
        slot < 32,
        function < 8,
    ensures
        v == config.word(slot as int, function as int, offset as int),
{
    let idx: usize = (slot as usize * 8 + function as usize) * 64 + (offset as usize) / 4;
    config.words[idx]
}

/// The port writes that store `value` at `offset` of a function: the address, then the
/// value.
pub fn write_config_u32(bus: u8, slot: u8, function: u8, offset: u8, value: u32) -> (w: (u32, u32))
    ensures
        w == (address_of(bus, slot, function, offset), value),
{
    (config_address(bus, slot, function, offset), value)
}

/// The 16-bit field at byte `offset` of a configuration word.
pub open spec fn field16(word: u32, offset: u8) -> u16 {
    ((word >> (((offset & 2) as u32) * 8) as u32) & 0xFFFF) as u16
}

/// The byte at byte `offset` of a configuration word.
pub open spec fn field8(word: u32, offset: u8) -> u8 {
    ((word >> (((offset & 3) as u32) * 8) as u32) & 0xFF) as u8
}

/// What a BAR probe gives: base address, size and whether it is prefetchable.
pub open spec fn bar_info(bar_value: u32, size_mask: u32, bar_high: u32) -> Option<(u64, u32, bool)> {
    if bar_value == 0 {
        None
    } else if bar_value & 1 == 0 {
        let base = (bar_value & 0xFFFFFFF0) as u64;
        let size = (!(size_mask & 0xFFFFFFF0)).wrapping_add(1);
        let prefetchable = bar_value & 0x8 != 0;
        if (bar_value >> 1u32) & 0x3 == 2 {
            Some((base | ((bar_high as u64) << 32u64), size, prefetchable))
        } else {
            Some((base, size, prefetchable))
        }
    } else {
        let base = (bar_value & 0xFFFFFFFC) as u64;
        let size = (!(size_mask & 0xFFFFFFFC)).wrapping_add(1);
        Some((base, size, false))
    }
}

/// The offset of BAR `bar_index`, for indexes 0 to 5.
pub fn bar_offset(bar_index: u8) -> (r: Option<u8>)
    ensures
        bar_index > 5 ==> r is None,
        bar_index <= 5 ==> r == Some((PCI_BAR0 + bar_index * 4) as u8),
{
    if bar_index > 5 {
        None
    } else {
        Some(PCI_BAR0 + bar_index * 4)
    }
}

/// The command register word with `bit` set, the upper half kept.
pub open spec fn with_command_bit(word: u32, bit: u16) -> u32 {
    (word & 0xFFFF0000) | ((field16(word, PCI_COMMAND) | bit) as u32)
}

/// The command register writes that enable memory space and then bus mastering on
/// `d`: the second sets its bit on top of what the first wrote.
pub open spec fn enable_writes(config: PciConfig, d: PciDevice) -> Seq<(u32, u32)> {
    let a = address_of(d.bus, d.slot, d.function, PCI_COMMAND);
    let v1 = with_command_bit(config.word(d.slot as int, d.function as int, 4), 2);
    seq![(a, v1), (a, with_command_bit(v1, 4))]
}

/// The configuration space once both of those writes have landed.
pub open spec fn enabled_words(config: PciConfig, d: PciDevice) -> Seq<u32> {
    config.words@.update((d.slot * 8 + d.function) * 64 + 1, enable_writes(config, d)[1].1)
}

impl PciDevice {
    /// The device is a function of a slot on bus 0.
    pub open spec fn on_bus0(&self) -> bool {
        self.bus == 0 && self.slot < 32 && self.function < 8
    }

    /// Read the configuration word at `offset`.
    pub fn read_config_u32(&self, config: &PciConfig, offset: u8) -> (v: u32)
        requires
            config.wf(),
            self.on_bus0(),
        ensures
            v == config.word(self.slot as int, self.function as int, offset as int),
    {
        read_config_u32(config, self.bus, self.slot, self.function, offset)
    }

    /// Read the 16-bit field at `offset`.
    pub fn read_config_u16(&self, config: &PciConfig, offset: u8) -> (v: u16)
        requires
            config.wf(),
            self.on_bus0(),
        ensures
            v == field16(config.word(self.slot as int, self.function as int, offset as int), offset),
    {
        let value = self.read_config_u32(config, offset & 0xFC);
        assert((offset & 0xFC) / 4 == offset / 4) by (bit_vector);
        let k: u8 = offset & 2;
        assert(k <= 2) by (bit_vector) requires k == offset & 2;
        let shift: u32 = (k as u32) * 8;
        ((value >> shift) & 0xFFFF) as u16
    }

    /// Read the byte at `offset`.
    pub fn read_config_u8(&self, config: &PciConfig, offset: u8) -> (v: u8)
        requires
            config.wf(),
            self.on_bus0(),
        ensures
            v == field8(config.word(self.slot as int, self.function as int, offset as int), offset),
    {
        let value = self.read_config_u32(config, offset & 0xFC);
        assert((offset & 0xFC) / 4 == offset / 4) by (bit_vector);
        let k: u8 = offset & 3;
        assert(k <= 3) by (bit_vector) requires k == offset & 3;
        let shift: u32 = (k as u32) * 8;
        ((value >> shift) & 0xFF) as u8
    }

    /// The port writes that store `value` at `offset`.
    pub fn write_config_u32(&self, offset: u8, value: u32) -> (w: (u32, u32))
        ensures
            w == (address_of(self.bus, self.slot, self.function, offset), value),
    {
        write_config_u32(self.bus, self.slot, self.function, offset, value)
    }

    /// Decode BAR `bar_index`, given what reading it back gave after all ones were
    /// written to it (`size_mask`). A zero BAR or an index above 5 gives `None`; a
    /// 64-bit memory BAR takes its high half from the next register.
    pub fn get_bar(&self, config: &PciConfig, bar_index: u8, size_mask: u32) -> (r: Option<(u64, u32, bool)>)
        requires
            config.wf(),
            self.on_bus0(),
        ensures
            bar_index > 5 ==> r is None,
            bar_index <= 5 ==> r == bar_info(
                config.word(self.slot as int, self.function as int, 0x10 + bar_index * 4),
                size_mask,
                config.word(self.slot as int, self.function as int, 0x14 + bar_index * 4),
            ),
    {
        if bar_index > 5 {
            return None;
        }
        let offset = PCI_BAR0 + (bar_index * 4);
        let bar_value = self.read_config_u32(config, offset);
        if bar_value == 0 {
            return None;
        }
        let is_mmio = (bar_value & 0x1) == 0;
        if is_mmio {
            let bar_type = (bar_value >> 1) & 0x3;
            let prefetchable = (bar_value & 0x8) != 0;
            let base_addr = (bar_value & 0xFFFFFFF0) as u64;
            let size = (!(size_mask & 0xFFFFFFF0)).wrapping_add(1);
            if bar_type == 2 {
                let bar_high = self.read_config_u32(config, offset + 4);
                let base_addr = base_addr | ((bar_high as u64) << 32);
                Some((base_addr, size, prefetchable))
            } else {
                Some((base_addr, size, prefetchable))
            }
        } else {
            let base_addr = (bar_value & 0xFFFFFFFC) as u64;
            let size = (!(size_mask & 0xFFFFFFFC)).wrapping_add(1);
            Some((base_addr, size, false))
        }
    }

    fn set_command_bit(&self, config: &PciConfig, bit: u16) -> (w: (u32, u32))
        requires
            config.wf(),
            self.on_bus0(),
        ensures
            w == (
                address_of(self.bus, self.slot, self.function, PCI_COMMAND),
                with_command_bit(config.word(self.slot as int, self.function as int, 4), bit),
            ),
    {
        assert((4u8 & 0xFCu8) == 4u8) by (bit_vector);
        let command = self.read_config_u16(config, PCI_COMMAND) | bit;
        let full_value = self.read_config_u32(config, PCI_COMMAND & 0xFC);
        let new_value = (full_value & 0xFFFF0000) | (command as u32);
        self.write_config_u32(PCI_COMMAND & 0xFC, new_value)
    }

    /// The port writes that set the bus master enable bit (bit 2) of the command
    /// register.
    pub fn enable_bus_mastering(&self, config: &PciConfig) -> (w: (u32, u32))
        requires
            config.wf(),
            self.on_bus0(),
        ensures
            w == (
                address_of(self.bus, self.slot, self.function, PCI_COMMAND),
                with_command_bit(config.word(self.slot as int, self.function as int, 4), 4),
            ),
    {
        self.set_command_bit(config, 0x4)
    }

    /// The port writes that set the memory space enable bit (bit 1).
    pub fn enable_memory_space(&self, config: &PciConfig) -> (w: (u32, u32))
        requires
            config.wf(),
            self.on_bus0(),
        ensures
            w == (
                address_of(self.bus, self.slot, self.function, PCI_COMMAND),
                with_command_bit(config.word(self.slot as int, self.function as int, 4), 2),
            ),
    {
        self.set_command_bit(config, 0x2)
    }

    /// The port writes that set the I/O space enable bit (bit 0).
    pub fn enable_io_space(&self, config: &PciConfig) -> (w: (u32, u32))
        requires
            config.wf(),
            self.on_bus0(),
        ensures
            w == (
                address_of(self.bus, self.slot, self.function, PCI_COMMAND),
                with_command_bit(config.word(self.slot as int, self.function as int, 4), 1),
            ),
    {
        self.set_command_bit(config, 0x1)
    }
}

/// The function at slot `slot`, function `function` of bus 0, unless its vendor id is
/// 0xFFFF (nothing there). Bit 7 of the header type marks a multi-function device.
pub open spec fn probe(config: PciConfig, slot: int, function: int) -> Option<PciDevice> {
    let id = config.word(slot, function, 0);
    let class_info = config.word(slot, function, 8);
    let header = config.word(slot, function, 0x0C);
    if (id & 0xFFFF) as u16 == 0xFFFF {
        None
    } else {
        Some(PciDevice {
            bus: 0,
            slot: slot as u8,
            function: function as u8,
            vendor_id: (id & 0xFFFF) as u16,
            device_id: ((id >> 16u32) & 0xFFFF) as u16,
            class_code: ((class_info >> 24u32) & 0xFF) as u8,
            subclass: ((class_info >> 16u32) & 0xFF) as u8,
            prog_if: ((class_info >> 8u32) & 0xFF) as u8,
            revision_id: (class_info & 0xFF) as u8,
            header_type: ((header >> 16u32) & 0xFF) as u8,
        })
    }
}

/// Look for a function at slot `slot`, function `function` of bus 0.
fn probe_device(config: &PciConfig, bus: u8, slot: u8, function: u8) -> (r: Option<PciDevice>)
    requires
        config.wf(),
        bus == 0,
        slot < 32,
        function < 8,
    ensures
        r == probe(*config, slot as int, function as int),
{
    assert((14u8 & 0xFCu8) == 12u8) by (bit_vector);
    let vendor_device = read_config_u32(config, bus, slot, function, PCI_VENDOR_ID);
    let vendor_id = (vendor_device & 0xFFFF) as u16;
    let device_id = ((vendor_device >> 16) & 0xFFFF) as u16;
    if vendor_id == 0xFFFF {
        return None;
    }
    let class_info = read_config_u32(config, bus, slot, function, PCI_REVISION_ID);
    let revision_id = (class_info & 0xFF) as u8;
    let prog_if = ((class_info >> 8) & 0xFF) as u8;
    let subclass = ((class_info >> 16) & 0xFF) as u8;
    let class_code = ((class_info >> 24) & 0xFF) as u8;
    let header_word = read_config_u32(config, bus, slot, function, PCI_HEADER_TYPE & 0xFC);
    let k: u8 = PCI_HEADER_TYPE & 3;
    assert(k == 2) by (bit_vector) requires k == 14u8 & 3u8;
    let shift: u32 = (k as u32) * 8;
    let header_type = ((header_word >> shift) & 0xFF) as u8;
    Some(PciDevice {
        bus,
        slot,
        function,
        vendor_id,
        device_id,
        class_code,
        subclass,
        prog_if,
        revision_id,
        header_type,
    })
}

/// Functions 1 to `f` of slot `slot` that are present, in order.
pub open spec fn slot_functions(config: PciConfig, slot: int, f: int) -> Seq<PciDevice>
    decreases f,
{
    if f <= 0 {
        Seq::empty()
    } else {
        let before = slot_functions(config, slot, f - 1);
        match probe(config, slot, f) {
            Some(d) => before.push(d),
            None => before,
        }
    }
}

/// The functions of slot `slot`: none when function 0 is absent; function 0, then the
/// present functions 1 to 7 when its header type marks a multi-function device.
pub open spec fn slot_devices(config: PciConfig, slot: int) -> Seq<PciDevice> {
    match probe(config, slot, 0) {
        None => Seq::empty(),
        Some(d) => if d.header_type & 0x80 != 0 { seq![d] + slot_functions(config, slot, 7) } else { seq![d] },
    }
}

/// All functions of bus 0 in slots below `n`, in slot and function order.
pub open spec fn all_functions(config: PciConfig, n: int) -> Seq<PciDevice>
    decreases n,
{
    if n <= 0 { Seq::empty() } else { all_functions(config, n - 1) + slot_devices(config, n - 1) }
}

/// What the scan of bus 0 lists: the first 32 functions of slots below `n`.
pub open spec fn found(config: PciConfig, n: int) -> Seq<PciDevice> {
    let a = all_functions(config, n);
    if a.len() > 32 { a.take(32) } else { a }
}

/// A list padded with `None` to `n` entries, cut to `n` if longer.
pub open spec fn padded(list: Seq<PciDevice>, n: int) -> Seq<Option<PciDevice>> {
    Seq::new(n as nat, |i: int| if i < list.len() { Some(list[i]) } else { None })
}

proof fn lemma_found_len(config: PciConfig, n: int)
    ensures
        found(config, n).len() <= 32,
{
}

/// Scan bus 0: function 0 of each slot, and functions 1 to 7 of a multi-function
/// device; the first 32 functions found, in order, then `None`s.
pub fn enumerate_devices(config: &PciConfig) -> (devices: Vec<Option<PciDevice>>)
    requires
        config.wf(),
    ensures
        devices@ == padded(found(*config, 32), 32),
{
    let mut list: Vec<PciDevice> = Vec::new();
    let mut slot: u8 = 0;
    while slot < 32
        invariant
            config.wf(),
            slot <= 32,
            list@ == all_functions(*config, slot as int),
        decreases 32 - slot,
    {
        let ghost before = list@;
        match probe_device(config, 0, slot, 0) {
            Some(device) => {
                list.push(device);
                if device.header_type & 0x80 != 0 {
                    let mut f: u8 = 1;
                    while f < 8
                        invariant
                            config.wf(),
                            slot < 32,
                            1 <= f <= 8,
                            list@ == before + seq![device] + slot_functions(*config, slot as int, f - 1),
                        decreases 8 - f,
                    {
                        let ghost mid = list@;
                        match probe_device(config, 0, slot, f) {
                            Some(d) => {
                                list.push(d);
                            },
                            None => {},
                        }
                        assert(list@ =~= before + seq![device] + slot_functions(*config, slot as int, f as int));
                        f = f + 1;
                    }
                    assert(list@ =~= all_functions(*config, slot + 1));
                } else {
                    assert(list@ =~= all_functions(*config, slot + 1));
                }
            },
            None => {
                assert(list@ =~= all_functions(*config, slot + 1));
            },
        }
        slot = slot + 1;
    }
    let mut devices: Vec<Option<PciDevice>> = Vec::new();
    let mut i: usize = 0;
    while i < 32
        invariant
            i <= 32,
            list@ == all_functions(*config, 32),
            devices@ == padded(list@, 32).take(i as int),
        decreases 32 - i,
    {
        if i < list.len() {
            devices.push(Some(list[i]));
        } else {
            devices.push(None);
        }
        assert(devices@ =~= padded(list@, 32).take(i + 1));
        i = i + 1;
    }
    assert(devices@ =~= padded(list@, 32));
    assert(padded(list@, 32) =~= padded(found(*config, 32), 32));
    devices
}

/// The first function found with the given vendor and device ids.
pub open spec fn first_match(list: Seq<PciDevice>, vendor_id: u16, device_id: u16) -> Option<PciDevice>
    decreases list.len(),
{
    if list.len() == 0 {
        None
    } else if list[0].vendor_id == vendor_id && list[0].device_id == device_id {
        Some(list[0])
    } else {
        first_match(list.drop_first(), vendor_id, device_id)
    }
}

/// Every function of slot `slot` that the scan lists sits on bus 0 in that slot.
proof fn lemma_slot_on_bus0(config: PciConfig, slot: int, f: int)
    requires
        0 <= slot < 32,
        f <= 7,
    ensures
        forall|k: int| 0 <= k < slot_functions(config, slot, f).len()
            ==> (#[trigger] slot_functions(config, slot, f)[k]).on_bus0(),
    decreases f,
{
    if f > 0 {
        lemma_slot_on_bus0(config, slot, f - 1);
        let before = slot_functions(config, slot, f - 1);
        assert forall|k: int| 0 <= k < slot_functions(config, slot, f).len()
            implies (#[trigger] slot_functions(config, slot, f)[k]).on_bus0() by {
            if k < before.len() {
                assert(slot_functions(config, slot, f)[k] == before[k]);
            }
        }
    }
}

/// What the scan finds sits on bus 0, in a slot below 32, function below 8.
pub proof fn lemma_found_on_bus0(config: PciConfig, n: int)
    requires
        0 <= n <= 32,
    ensures
        forall|k: int| 0 <= k < found(config, n).len() ==> (#[trigger] found(config, n)[k]).on_bus0(),
{
    lemma_all_on_bus0(config, n);
    let a = all_functions(config, n);
    assert forall|k: int| 0 <= k < found(config, n).len() implies (#[trigger] found(config, n)[k]).on_bus0() by {
        assert(found(config, n)[k] == a[k]);
    }
}

proof fn lemma_all_on_bus0(config: PciConfig, n: int)
    requires
        0 <= n <= 32,
    ensures
        forall|k: int| 0 <= k < all_functions(config, n).len() ==> (#[trigger] all_functions(config, n)[k]).on_bus0(),
    decreases n,
{
    if n > 0 {
        lemma_all_on_bus0(config, n - 1);
        lemma_slot_on_bus0(config, n - 1, 7);
        let before = all_functions(config, n - 1);
        let sd = slot_devices(config, n - 1);
        let sf = slot_functions(config, n - 1, 7);
        assert forall|k: int| 0 <= k < all_functions(config, n).len() implies (#[trigger] all_functions(config, n)[k]).on_bus0() by {
            if k < before.len() {
                assert(all_functions(config, n)[k] == before[k]);
            } else {
                assert(all_functions(config, n)[k] == sd[k - before.len()]);
                if k - before.len() > 0 {
                    assert(sd[k - before.len()] == sf[k - before.len() - 1]);
                }
            }
        }
    }
}

/// The function that `find_device` finds sits on bus 0.
pub proof fn lemma_first_match_on_bus0(config: PciConfig, vendor_id: u16, device_id: u16)
    ensures
        first_match(found(config, 32), vendor_id, device_id) matches Some(d) ==> d.on_bus0(),
{
    lemma_found_on_bus0(config, 32);
    lemma_first_match_member(found(config, 32), vendor_id, device_id);
}

proof fn lemma_first_match_member(list: Seq<PciDevice>, vendor_id: u16, device_id: u16)
    ensures
        first_match(list, vendor_id, device_id) matches Some(d) ==> exists|j: int| 0 <= j < list.len() && list[j] == d,
    decreases list.len(),
{
    if list.len() > 0 {
        lemma_first_match_member(list.drop_first(), vendor_id, device_id);
        if let Some(d) = first_match(list, vendor_id, device_id) {
            if !(list[0].vendor_id == vendor_id && list[0].device_id == device_id) {
                let j = choose|j: int| 0 <= j < list.drop_first().len() && list.drop_first()[j] == d;
                assert(list[j + 1] == d);
            } else {
                assert(list[0] == d);
            }
        }
    }
}

/// Find a function on bus 0 by vendor and device id: the first in slot order.
pub fn find_device(config: &PciConfig, vendor_id: u16, device_id: u16) -> (r: Option<PciDevice>)
    requires
        config.wf(),
    ensures
        r == first_match(found(*config, 32), vendor_id, device_id),
{
    let devices = enumerate_devices(config);
    let ghost list = found(*config, 32);
    proof {
        lemma_found_len(*config, 32);
    }
    let mut i: usize = 0;
    assert(list.skip(0) =~= list);
    while i < devices.len()
        invariant
            list == found(*config, 32),
            devices@ == padded(list, 32),
            list.len() <= 32,
            i <= 32,
            i <= list.len(),
            first_match(list, vendor_id, device_id) == first_match(list.skip(i as int), vendor_id, device_id),
        decreases 32 - i,
    {
        let entry = devices[i];
        assert(entry == padded(list, 32)[i as int]);
        match entry {
            Some(device) => {
                proof {
                    assert(i < list.len());
                    assert(device == list[i as int]);
                    assert(list.skip(i as int)[0] == list[i as int]);
                    assert(list.skip(i as int).drop_first() =~= list.skip(i + 1));
                    assert(list.skip(i as int).len() > 0);
                }
                if device.vendor_id == vendor_id && device.device_id == device_id {
                    return Some(device);
                }
            },
            None => {
                proof {
                    assert(list.skip(i as int) =~= Seq::<PciDevice>::empty());
                }
                return None;
            },
        }
        i = i + 1;
    }
    proof {
        assert(list.skip(i as int) =~= Seq::<PciDevice>::empty());
    }
    None
}

/// Whether a function has the class, and the subclass when one is given.
pub open spec fn class_matches(d: PciDevice, class_code: u8, subclass: Option<u8>) -> bool {
    d.class_code == class_code && (subclass is None || subclass == Some(d.subclass))
}

/// The functions of `list` that match a class, in order.
pub open spec fn with_class(list: Seq<PciDevice>, class_code: u8, subclass: Option<u8>) -> Seq<PciDevice>
    decreases list.len(),
{
    if list.len() == 0 {
        Seq::empty()
    } else {
        let rest = with_class(list.drop_last(), class_code, subclass);
        if class_matches(list.last(), class_code, subclass) { rest.push(list.last()) } else { rest }
    }
}

/// Find up to 16 functions on bus 0 of a class (and subclass, when given), in slot
/// order, then `None`s.
pub fn find_devices_by_class(config: &PciConfig, class_code: u8, subclass: Option<u8>) -> (r: Vec<Option<PciDevice>>)
    requires
        config.wf(),
    ensures
        r@ == padded(with_class(found(*config, 32), class_code, subclass), 16),
{
    let devices = enumerate_devices(config);
    let ghost list = found(*config, 32);
    proof {
        lemma_found_len(*config, 32);
    }
    let mut matching: Vec<PciDevice> = Vec::new();
    let mut i: usize = 0;
    assert(list.take(0) =~= Seq::<PciDevice>::empty());
    while i < devices.len()
        invariant
            list == found(*config, 32),
            devices@ == padded(list, 32),
            devices@.len() == 32,
            list.len() <= 32,
            i <= 32,
            i <= list.len() ==> matching@ == with_class(list.take(i as int), class_code, subclass),
            i > list.len() ==> matching@ == with_class(list, class_code, subclass),
        decreases 32 - i,
    {
        let entry = devices[i];
        assert(entry == padded(list, 32)[i as int]);
        match entry {
            Some(device) => {
                proof {
                    assert(i < list.len());
                    assert(list.take(i + 1).drop_last() =~= list.take(i as int));
                    assert(list.take(i + 1).last() == list[i as int]);
                }
                if device.class_code == class_code
                    && (subclass.is_none() || subclass == Some(device.subclass)) {
                    matching.push(device);
                }
            },
            None => {
                proof {
                    if i == list.len() {
                        assert(list.take(i as int) =~= list);
                    }
                }
            },
        }
        i = i + 1;
    }
    proof {
        if list.len() == 32 {
            assert(list.take(32) =~= list);
        }
    }
    let mut result: Vec<Option<PciDevice>> = Vec::new();
    let mut k: usize = 0;
    while k < 16
        invariant
            k <= 16,
            matching@ == with_class(list, class_code, subclass),
            result@ == padded(matching@, 16).take(k as int),
        decreases 16 - k,
    {
        if k < matching.len() {
            result.push(Some(matching[k]));
        } else {
            result.push(None);
        }
        assert(result@ =~= padded(matching@, 16).take(k + 1));
        k = k + 1;
    }
    assert(result@ =~= padded(matching@, 16));
    result
}

/// The name of a vendor id.
pub open spec fn vendor_title(vendor_id: u16) -> Seq<char> {
    if vendor_id == VENDOR_INTEL {
        "Intel Corporation"@
    } else if vendor_id == VENDOR_AMD {
        "Advanced Micro Devices"@
    } else if vendor_id == VENDOR_REALTEK {
        "Realtek Semiconductor"@
    } else if vendor_id == 0x1234 {
        "QEMU"@
    } else if vendor_id == 0x1AF4 {
        "Red Hat (VirtIO)"@
    } else if vendor_id == 0x15AD {
        "VMware"@
    } else if vendor_id == 0x1B36 {
        "Red Hat (QEMU)"@
    } else {
        "Unknown Vendor"@
    }
}

/// The name of a vendor id.
pub fn get_vendor_name(vendor_id: u16) -> (name: &'static str)
    ensures
        name@ == vendor_title(vendor_id),
{
    match vendor_id {
        VENDOR_INTEL => "Intel Corporation",
        VENDOR_AMD => "Advanced Micro Devices",
        VENDOR_REALTEK => "Realtek Semiconductor",
        0x1234 => "QEMU",
        0x1AF4 => "Red Hat (VirtIO)",
        0x15AD => "VMware",
        0x1B36 => "Red Hat (QEMU)",
        _ => "Unknown Vendor",
    }
}

/// The name of a class code.
pub open spec fn class_title(class_code: u8) -> Seq<char> {
    if class_code == 0x00 { "Unclassified"@ }
    else if class_code == 0x01 { "Mass Storage Controller"@ }
    else if class_code == 0x02 { "Network Controller"@ }
    else if class_code == 0x03 { "Display Controller"@ }
    else if class_code == 0x04 { "Multimedia Controller"@ }
    else if class_code == 0x05 { "Memory Controller"@ }
    else if class_code == 0x06 { "Bridge Device"@ }
    else if class_code == 0x07 { "Communication Controller"@ }
    else if class_code == 0x08 { "Generic System Peripheral"@ }
    else if class_code == 0x09 { "Input Device"@ }
    else if class_code == 0x0A { "Docking Station"@ }
    else if class_code == 0x0B { "Processor"@ }
    else if class_code == 0x0C { "Serial Bus Controller"@ }
    else if class_code == 0x0D { "Wireless Controller"@ }
    else if class_code == 0x0E { "Intelligent I/O Controller"@ }
    else if class_code == 0x0F { "Satellite Communication Controller"@ }
    else if class_code == 0x10 { "Encryption/Decryption Controller"@ }
    else if class_code == 0x11 { "Data Acquisition Controller"@ }
    else { "Unknown Class"@ }
}

/// The name of a class code.
pub fn get_class_name(class_code: u8) -> (name: &'static str)
    ensures
        name@ == class_title(class_code),
{
    match class_code {
        0x00 => "Unclassified",
        0x01 => "Mass Storage Controller",
        0x02 => "Network Controller",
        0x03 => "Display Controller",
        0x04 => "Multimedia Controller",
        0x05 => "Memory Controller",
        0x06 => "Bridge Device",
        0x07 => "Communication Controller",
        0x08 => "Generic System Peripheral",
        0x09 => "Input Device",
        0x0A => "Docking Station",
        0x0B => "Processor",
        0x0C => "Serial Bus Controller",
        0x0D => "Wireless Controller",
        0x0E => "Intelligent I/O Controller",
        0x0F => "Satellite Communication Controller",
        0x10 => "Encryption/Decryption Controller",
        0x11 => "Data Acquisition Controller",
        _ => "Unknown Class",
    }
}


/// A 64-bit memory BAR (bit 0 clear, type bits 2:1 equal to 2) gives a base address
/// whose upper 32 bits are the next BAR dword and whose lower 32 bits are the BAR with
/// its four flag bits cleared; the size is the two's complement of the size mask's
/// address bits, and bit 3 says whether it is prefetchable.
pub proof fn law_bar64_base(v: u32, m: u32, h: u32)
    requires
        v != 0,
        v & 1 == 0,
        (v >> 1u32) & 3 == 2,
    ensures
        bar_info(v, m, h) is Some,
        (bar_info(v, m, h)->0).0 >> 32u64 == h as u64,
        (bar_info(v, m, h)->0).0 & 0xFFFF_FFFFu64 == (v & 0xFFFF_FFF0) as u64,
        (bar_info(v, m, h)->0).1 as int == (0x1_0000_0000 - (m & 0xFFFF_FFF0) as int) % 0x1_0000_0000,
        (bar_info(v, m, h)->0).2 == (v & 8 != 0),
{
    let lo = (v & 0xFFFF_FFF0) as u64;
    let base = lo | ((h as u64) << 32u64);
    assert(base >> 32u64 == h as u64 && base & 0xFFFF_FFFFu64 == lo) by (bit_vector)
        requires lo == (v & 0xFFFF_FFF0) as u64, base == lo | ((h as u64) << 32u64);
    let mm = m & 0xFFFF_FFF0;
    let sz = (!mm).wrapping_add(1);
    assert(sz as int == (0x1_0000_0000 - mm as int) % 0x1_0000_0000) by (bit_vector)
        requires sz == (!mm).wrapping_add(1);
}

/// A 32-bit memory BAR (type bits 2:1 not equal to 2) gives the BAR with its four flag
/// bits cleared as the base, with nothing above bit 31.
pub proof fn law_bar32_base(v: u32, m: u32, h: u32)
    requires
        v != 0,
        v & 1 == 0,
        (v >> 1u32) & 3 != 2,
    ensures
        bar_info(v, m, h) is Some,
        (bar_info(v, m, h)->0).0 == (v & 0xFFFF_FFF0) as u64,
        (bar_info(v, m, h)->0).0 >> 32u64 == 0,
{
    let lo = (v & 0xFFFF_FFF0) as u64;
    assert(lo >> 32u64 == 0) by (bit_vector)
        requires lo == (v & 0xFFFF_FFF0) as u64;
}

} // verus!
