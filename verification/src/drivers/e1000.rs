//! Intel E1000 (82540EM) network card: its descriptor rings and buffers, and the
//! register values the driver writes. Register reads are handed in; register writes
//! are returned as (register, value) pairs.

use vstd::prelude::*;
use vstd::string::StringSliceAdditionalSpecFns;
use crate::util::{hex_bytes, push_str, write_hex_u16, write_hex_u8};

verus! {

/// Device control.
pub const REG_CTRL: u32 = 0x0000;
/// Device status.
pub const REG_STATUS: u32 = 0x0008;
/// EEPROM read.
pub const REG_EEPROM: u32 = 0x0014;
/// Receive control.
pub const REG_RCTL: u32 = 0x0100;
/// Transmit control.
pub const REG_TCTL: u32 = 0x0400;
/// Receive descriptor base, low half.
pub const REG_RDBAL: u32 = 0x2800;
/// Receive descriptor base, high half.
pub const REG_RDBAH: u32 = 0x2804;
/// Receive descriptor ring length in bytes.
pub const REG_RDLEN: u32 = 0x2808;
/// Receive head.
pub const REG_RDH: u32 = 0x2810;
/// Receive tail.
pub const REG_RDT: u32 = 0x2818;
/// Transmit descriptor base, low half.
pub const REG_TDBAL: u32 = 0x3800;
/// Transmit descriptor base, high half.
pub const REG_TDBAH: u32 = 0x3804;
/// Transmit descriptor ring length in bytes.
pub const REG_TDLEN: u32 = 0x3808;
/// Transmit head.
pub const REG_TDH: u32 = 0x3810;
/// Transmit tail.
pub const REG_TDT: u32 = 0x3818;
/// Multicast table array.
pub const REG_MTA: u32 = 0x5200;

/// Control: device reset.
pub const CTRL_RST: u32 = 0x0400_0000;
/// Control: set link up.
pub const CTRL_SLU: u32 = 0x40;
/// EEPROM: start a read.
pub const EEPROM_START: u32 = 0x1;
/// EEPROM: read done.
pub const EEPROM_DONE: u32 = 0x10;
/// Receive control: enable, store bad packets, unicast and multicast promiscuous,
/// accept broadcast, 8 KiB buffers, strip CRC.
pub const RCTL_VALUE: u32 = 0x0402_801E;
/// Transmit control: enable, pad short packets, collision threshold 16.
pub const TCTL_VALUE: u32 = 0x10A;
/// Descriptor status: done.
pub const DESC_STATUS_DD: u8 = 0x1;
/// Descriptor command: end of packet.
pub const CMD_EOP: u8 = 0x1;
/// Descriptor command: report status.
pub const CMD_RS: u8 = 0x8;
/// Receive descriptors.
pub const RX_DESC_COUNT: usize = 32;
/// Transmit descriptors.
pub const TX_DESC_COUNT: usize = 16;
/// Bytes of each packet buffer.
pub const RX_BUFFER_SIZE: usize = 8192;

/// A receive descriptor.
#[derive(Clone, Copy)]
pub struct RxDescriptor {
    pub addr: u64,
    pub length: u16,
    pub checksum: u16,
    pub status: u8,
    pub errors: u8,
    pub special: u16,
}

/// A transmit descriptor.
#[derive(Clone, Copy)]
pub struct TxDescriptor {
    pub addr: u64,
    pub length: u16,
    pub cso: u8,
    pub cmd: u8,
    pub status: u8,
    pub css: u8,
    pub special: u16,
}

/// The driver: the card's I/O base, the MAC address, the rings, their buffers and the
/// tails the driver last wrote.
pub struct E1000 {
    pub io_base: u16,
    pub initialized: bool,
    pub mac: [u8; 6],
    pub rx_descs: Vec<RxDescriptor>,
    pub tx_descs: Vec<TxDescriptor>,
    pub rx_buffers: Vec<Vec<u8>>,
    pub tx_buffers: Vec<Vec<u8>>,
    pub rx_tail: usize,
    pub tx_tail: usize,
}

impl E1000 {
    /// The rings and buffers have their sizes, and the tails are inside the rings.
    pub open spec fn wf(&self) -> bool {
        &&& self.rx_descs@.len() == RX_DESC_COUNT
        &&& self.tx_descs@.len() == TX_DESC_COUNT
        &&& self.rx_buffers@.len() == RX_DESC_COUNT
        &&& self.tx_buffers@.len() == TX_DESC_COUNT
        &&& forall|i: int| 0 <= i < RX_DESC_COUNT ==> #[trigger] self.rx_buffers@[i]@.len() == RX_BUFFER_SIZE
        &&& forall|i: int| 0 <= i < TX_DESC_COUNT ==> #[trigger] self.tx_buffers@[i]@.len() == RX_BUFFER_SIZE
        &&& self.rx_tail < RX_DESC_COUNT
        &&& self.tx_tail < TX_DESC_COUNT
    }

    /// A card not set up: blank rings, zeroed buffers.
    pub fn new() -> (d: E1000)
        ensures
            d.wf(),
            !d.initialized,
            d.rx_tail == 0 && d.tx_tail == 0,
    {
        let mut rx_descs: Vec<RxDescriptor> = Vec::new();
        let mut rx_buffers: Vec<Vec<u8>> = Vec::new();
        let mut i: usize = 0;
        while i < RX_DESC_COUNT
            invariant
                i <= RX_DESC_COUNT,
                rx_descs@.len() == i,
                rx_buffers@.len() == i,
                forall|k: int| 0 <= k < i ==> #[trigger] rx_buffers@[k]@.len() == RX_BUFFER_SIZE,
            decreases RX_DESC_COUNT - i,
        {
            rx_descs.push(RxDescriptor { addr: 0, length: 0, checksum: 0, status: 0, errors: 0, special: 0 });
            rx_buffers.push(zeroed_buffer());
            i = i + 1;
        }
        let mut tx_descs: Vec<TxDescriptor> = Vec::new();
        let mut tx_buffers: Vec<Vec<u8>> = Vec::new();
        let mut j: usize = 0;
        while j < TX_DESC_COUNT
            invariant
                j <= TX_DESC_COUNT,
                tx_descs@.len() == j,
                tx_buffers@.len() == j,
                forall|k: int| 0 <= k < j ==> #[trigger] tx_buffers@[k]@.len() == RX_BUFFER_SIZE,
            decreases TX_DESC_COUNT - j,
        {
            tx_descs.push(TxDescriptor { addr: 0, length: 0, cso: 0, cmd: 0, status: 0, css: 0, special: 0 });
            tx_buffers.push(zeroed_buffer());
            j = j + 1;
        }
        E1000 {
            io_base: 0,
            initialized: false,
            mac: [0u8; 6],
            rx_descs,
            tx_descs,
            rx_buffers,
            tx_buffers,
            rx_tail: 0,
            tx_tail: 0,
        }
    }
}

fn zeroed_buffer() -> (v: Vec<u8>)
    ensures
        v@.len() == RX_BUFFER_SIZE,
{
    let mut v: Vec<u8> = Vec::new();
    let mut i: usize = 0;
    while i < RX_BUFFER_SIZE
        invariant
            i <= RX_BUFFER_SIZE,
            v@.len() == i,
        decreases RX_BUFFER_SIZE - i,
    {
        v.push(0);
        i = i + 1;
    }
    v
}

/// The value written to EEPROM read to read word `addr`.
pub fn eeprom_request(addr: u8) -> (v: u32)
    ensures
        v == EEPROM_START | ((addr as u32) << 8u32),
{
    EEPROM_START | ((addr as u32) << 8)
}

/// The word an EEPROM read register value holds, once the read is done.
pub fn eeprom_word(value: u32) -> (w: Option<u16>)
    ensures
        value & EEPROM_DONE != 0 ==> w == Some(((value >> 16u32) & 0xFFFF) as u16),
        value & EEPROM_DONE == 0 ==> w is None,
{
    if value & EEPROM_DONE != 0 {
        Some(((value >> 16) & 0xFFFF) as u16)
    } else {
        None
    }
}

/// The word of an EEPROM read from the register values read while waiting: the first
/// done one within 1000 reads, else 0xFFFF.
pub fn read_eeprom(reads: &Vec<u32>) -> (w: u16)
    ensures
        (exists|i: int| 0 <= i < reads@.len() && i < 1000 && #[trigger] reads@[i] & EEPROM_DONE != 0
            && (forall|j: int| 0 <= j < i ==> #[trigger] reads@[j] & EEPROM_DONE == 0)
            && w == ((reads@[i] >> 16u32) & 0xFFFF) as u16)
        || ((forall|j: int| 0 <= j < reads@.len() && j < 1000 ==> #[trigger] reads@[j] & EEPROM_DONE == 0) && w == 0xFFFF),
{
    let mut i: usize = 0;
    while i < reads.len() && i < 1000
        invariant
            i <= reads@.len(),
            i <= 1000,
            forall|j: int| 0 <= j < i ==> #[trigger] reads@[j] & EEPROM_DONE == 0,
        decreases reads@.len() - i,
    {
        if let Some(word) = eeprom_word(reads[i]) {
            return word;
        }
        i = i + 1;
    }
    0xFFFF
}

/// The control register value that resets the card.
pub fn reset_value(ctrl: u32) -> (v: u32)
    ensures
        v == ctrl | CTRL_RST,
{
    ctrl | CTRL_RST
}

/// The control register value that sets the link up.
pub fn link_up_value(ctrl: u32) -> (v: u32)
    ensures
        v == ctrl | CTRL_SLU,
{
    ctrl | CTRL_SLU
}

/// The MAC address stored in EEPROM words 0 to 2, each low byte first.
pub open spec fn mac_of(w: [u16; 3]) -> Seq<u8> {
    seq![
        (w@[0] & 0xFF) as u8, ((w@[0] >> 8u16) & 0xFF) as u8,
        (w@[1] & 0xFF) as u8, ((w@[1] >> 8u16) & 0xFF) as u8,
        (w@[2] & 0xFF) as u8, ((w@[2] >> 8u16) & 0xFF) as u8,
    ]
}

/// The register writes that set the card up after the reset: the multicast table
/// cleared, the receive ring (its tail one before its head), the transmit ring, and the
/// receive and transmit controls.
pub open spec fn init_writes(rx_ring: u64, tx_ring: u64) -> Seq<(u32, u32)> {
    Seq::new(128, |i: int| ((REG_MTA + 4 * i) as u32, 0u32)) + seq![
        (REG_RDBAL, (rx_ring & 0xFFFFFFFF) as u32),
        (REG_RDBAH, ((rx_ring >> 32u64) & 0xFFFFFFFF) as u32),
        (REG_RDLEN, 512u32),
        (REG_RDH, 0u32),
        (REG_RDT, 31u32),
        (REG_TDBAL, (tx_ring & 0xFFFFFFFF) as u32),
        (REG_TDBAH, ((tx_ring >> 32u64) & 0xFFFFFFFF) as u32),
        (REG_TDLEN, 256u32),
        (REG_TDH, 0u32),
        (REG_TDT, 0u32),
        (REG_RCTL, RCTL_VALUE),
        (REG_TCTL, TCTL_VALUE),
    ]
}

/// The MAC address as hex pairs separated by colons.
pub open spec fn mac_text(mac: Seq<u8>) -> Seq<u8> {
    hex_bytes(mac[0] as u64, 2) + seq![58u8] + hex_bytes(mac[1] as u64, 2) + seq![58u8]
        + hex_bytes(mac[2] as u64, 2) + seq![58u8] + hex_bytes(mac[3] as u64, 2) + seq![58u8]
        + hex_bytes(mac[4] as u64, 2) + seq![58u8] + hex_bytes(mac[5] as u64, 2)
}

/// The serial log of setting the card up.
pub open spec fn init_log(io_base: u16, mac: Seq<u8>) -> Seq<u8> {
    "E1000: Initializing at I/O base 0x".spec_bytes() + hex_bytes(io_base as u64, 4) + "\n".spec_bytes()
        + "E1000: MAC address: ".spec_bytes() + mac_text(mac) + "\n".spec_bytes()
        + "E1000: Initialized successfully\n".spec_bytes()
}

fn push_mac(out: &mut Vec<u8>, mac: &[u8; 6])
    ensures
        final(out)@ == old(out)@ + mac_text(mac@),
{
    let mut i: usize = 0;
    let ghost start = out@;
    while i < 6
        invariant
            i <= 6,
            out@ == start + mac_prefix(mac@, i as int),
        decreases 6 - i,
    {
        write_hex_u8(mac[i], out);
        if i < 5 {
            out.push(58);
        }
        proof {
            if i < 5 {
                assert(mac_prefix(mac@, i + 1) =~= mac_prefix(mac@, i as int) + hex_bytes(mac@[i as int] as u64, 2) + seq![58u8]);
            } else {
                assert(mac_prefix(mac@, i + 1) =~= mac_prefix(mac@, i as int) + hex_bytes(mac@[i as int] as u64, 2));
            }
            assert(out@ =~= start + mac_prefix(mac@, i + 1));
        }
        i = i + 1;
    }
    assert(mac_prefix(mac@, 6) =~= mac_text(mac@)) by {
        reveal_with_fuel(mac_prefix, 7);
    }
}

/// The first `n` hex pairs of the MAC text, each but the sixth followed by a colon.
pub open spec fn mac_prefix(mac: Seq<u8>, n: int) -> Seq<u8>
    decreases n,
{
    if n <= 0 {
        Seq::empty()
    } else if n < 6 {
        mac_prefix(mac, n - 1) + hex_bytes(mac[n - 1] as u64, 2) + seq![58u8]
    } else {
        mac_prefix(mac, n - 1) + hex_bytes(mac[n - 1] as u64, 2)
    }
}

/// Set the driver up for the card at `io_base`, after its reset: the MAC address from
/// EEPROM words 0 to 2, the descriptors pointed at the buffers at the given addresses
/// (transmit descriptors marked done), the tails, and the log. Returns the register
/// writes to make.
pub fn init(
    dev: &mut E1000,
    io_base: u16,
    mac_words: [u16; 3],
    rx_ring: u64,
    tx_ring: u64,
    rx_buffer_addrs: &Vec<u64>,
    tx_buffer_addrs: &Vec<u64>,
    serial: &mut Vec<u8>,
) -> (r: Result<Vec<(u32, u32)>, &'static str>)
    requires
        old(dev).wf(),
        rx_buffer_addrs@.len() == RX_DESC_COUNT,
        tx_buffer_addrs@.len() == TX_DESC_COUNT,
    ensures
        final(dev).wf(),
        final(dev).initialized,
        final(dev).io_base == io_base,
        final(dev).mac@ == mac_of(mac_words),
        final(dev).rx_tail == RX_DESC_COUNT - 1,
        final(dev).tx_tail == 0,
        forall|i: int| 0 <= i < RX_DESC_COUNT ==> #[trigger] final(dev).rx_descs@[i]
            == (RxDescriptor { addr: rx_buffer_addrs@[i], status: 0, ..old(dev).rx_descs@[i] }),
        forall|i: int| 0 <= i < TX_DESC_COUNT ==> #[trigger] final(dev).tx_descs@[i]
            == (TxDescriptor { addr: tx_buffer_addrs@[i], status: DESC_STATUS_DD, cmd: 0, ..old(dev).tx_descs@[i] }),
        final(dev).rx_buffers@ == old(dev).rx_buffers@,
        final(dev).tx_buffers@ == old(dev).tx_buffers@,
        r matches Ok(w) && w@ == init_writes(rx_ring, tx_ring),
        final(serial)@ == old(serial)@ + init_log(io_base, mac_of(mac_words)),
{
    dev.io_base = io_base;
    push_str(serial, "E1000: Initializing at I/O base 0x");
    write_hex_u16(io_base, serial);
    push_str(serial, "\n");
    let mut mac = [0u8; 6];
    mac[0] = (mac_words[0] & 0xFF) as u8;
    mac[1] = ((mac_words[0] >> 8) & 0xFF) as u8;
    mac[2] = (mac_words[1] & 0xFF) as u8;
    mac[3] = ((mac_words[1] >> 8) & 0xFF) as u8;
    mac[4] = (mac_words[2] & 0xFF) as u8;
    mac[5] = ((mac_words[2] >> 8) & 0xFF) as u8;
    assert(mac@ =~= mac_of(mac_words));
    dev.mac = mac;
    push_str(serial, "E1000: MAC address: ");
    push_mac(serial, &mac);
    push_str(serial, "\n");
    let mut writes: Vec<(u32, u32)> = Vec::new();
    let mut m: u32 = 0;
    while m < 128
        invariant
            m <= 128,
            writes@ == Seq::new(m as nat, |i: int| ((REG_MTA + 4 * i) as u32, 0u32)),
        decreases 128 - m,
    {
        writes.push((REG_MTA + (m * 4), 0));
        assert(writes@ =~= Seq::new((m + 1) as nat, |i: int| ((REG_MTA + 4 * i) as u32, 0u32)));
        m = m + 1;
    }
    let mut i: usize = 0;
    while i < RX_DESC_COUNT
        invariant
            dev.wf(),
            dev.io_base == io_base,
            dev.mac@ == mac_of(mac_words),
            i <= RX_DESC_COUNT,
            rx_buffer_addrs@.len() == RX_DESC_COUNT,
            dev.rx_buffers@ == old(dev).rx_buffers@,
            dev.tx_buffers@ == old(dev).tx_buffers@,
            dev.tx_descs@ == old(dev).tx_descs@,
            dev.rx_tail == old(dev).rx_tail,
            dev.tx_tail == old(dev).tx_tail,
            forall|k: int| 0 <= k < i ==> #[trigger] dev.rx_descs@[k]
                == (RxDescriptor { addr: rx_buffer_addrs@[k], status: 0, ..old(dev).rx_descs@[k] }),
            forall|k: int| i <= k < RX_DESC_COUNT ==> #[trigger] dev.rx_descs@[k] == old(dev).rx_descs@[k],
        decreases RX_DESC_COUNT - i,
    {
        let mut d = dev.rx_descs[i];
        d.addr = rx_buffer_addrs[i];
        d.status = 0;
        dev.rx_descs.set(i, d);
        i = i + 1;
    }
    let mut j: usize = 0;
    while j < TX_DESC_COUNT
        invariant
            dev.wf(),
            dev.io_base == io_base,
            dev.mac@ == mac_of(mac_words),
            j <= TX_DESC_COUNT,
            tx_buffer_addrs@.len() == TX_DESC_COUNT,
            dev.rx_buffers@ == old(dev).rx_buffers@,
            dev.tx_buffers@ == old(dev).tx_buffers@,
            dev.rx_tail == old(dev).rx_tail,
            dev.tx_tail == old(dev).tx_tail,
            forall|k: int| 0 <= k < RX_DESC_COUNT ==> #[trigger] dev.rx_descs@[k]
                == (RxDescriptor { addr: rx_buffer_addrs@[k], status: 0, ..old(dev).rx_descs@[k] }),
            forall|k: int| 0 <= k < j ==> #[trigger] dev.tx_descs@[k]
                == (TxDescriptor { addr: tx_buffer_addrs@[k], status: DESC_STATUS_DD, cmd: 0, ..old(dev).tx_descs@[k] }),
            forall|k: int| j <= k < TX_DESC_COUNT ==> #[trigger] dev.tx_descs@[k] == old(dev).tx_descs@[k],
        decreases TX_DESC_COUNT - j,
    {
        let mut d = dev.tx_descs[j];
        d.addr = tx_buffer_addrs[j];
        d.status = DESC_STATUS_DD;
        d.cmd = 0;
        dev.tx_descs.set(j, d);
        j = j + 1;
    }
    writes.push((REG_RDBAL, (rx_ring & 0xFFFFFFFF) as u32));
    writes.push((REG_RDBAH, ((rx_ring >> 32) & 0xFFFFFFFF) as u32));
    writes.push((REG_RDLEN, (RX_DESC_COUNT * 16) as u32));
    writes.push((REG_RDH, 0));
    writes.push((REG_RDT, (RX_DESC_COUNT - 1) as u32));
    dev.rx_tail = RX_DESC_COUNT - 1;
    writes.push((REG_TDBAL, (tx_ring & 0xFFFFFFFF) as u32));
    writes.push((REG_TDBAH, ((tx_ring >> 32) & 0xFFFFFFFF) as u32));
    writes.push((REG_TDLEN, (TX_DESC_COUNT * 16) as u32));
    writes.push((REG_TDH, 0));
    writes.push((REG_TDT, 0));
    dev.tx_tail = 0;
    writes.push((REG_RCTL, RCTL_VALUE));
    writes.push((REG_TCTL, TCTL_VALUE));
    dev.initialized = true;
    push_str(serial, "E1000: Initialized successfully\n");
    assert(writes@ =~= init_writes(rx_ring, tx_ring));
    assert(serial@ =~= old(serial)@ + init_log(io_base, mac_of(mac_words)));
    Ok(writes)
}

/// Whether the card is set up.
pub fn is_initialized(dev: &E1000) -> (b: bool)
    ensures
        b == dev.initialized,
{
    dev.initialized
}

/// The MAC address.
pub fn get_mac_address(dev: &E1000) -> (m: [u8; 6])
    ensures
        m == dev.mac,
{
    dev.mac
}

/// Take the next received packet, given the receive head register: the descriptor after
/// the tail, when it is not the head, is done and holds 1 to 8192 bytes. It is handed
/// back to the card (status cleared, tail moved to it, the tail register write
/// returned).
pub fn receive_packet(dev: &mut E1000, rx_head: u32) -> (r: (Option<Vec<u8>>, Option<(u32, u32)>))
    requires
        old(dev).wf(),
    ensures
        final(dev).wf(),
        ({
            let next = (old(dev).rx_tail + 1) % 32;
            let d = old(dev).rx_descs@[next];
            if old(dev).initialized && next != rx_head && d.status & DESC_STATUS_DD != 0
                && 0 < d.length <= RX_BUFFER_SIZE {
                &&& r.0 matches Some(p) && p@ == old(dev).rx_buffers@[next]@.take(d.length as int)
                &&& r.1 == Some((REG_RDT, next as u32))
                &&& final(dev).rx_tail == next
                &&& final(dev).rx_descs@ == old(dev).rx_descs@.update(next, RxDescriptor { status: 0, ..d })
                &&& final(dev).tx_descs@ == old(dev).tx_descs@ && final(dev).tx_tail == old(dev).tx_tail
                &&& final(dev).rx_buffers@ == old(dev).rx_buffers@ && final(dev).tx_buffers@ == old(dev).tx_buffers@
                &&& final(dev).initialized == old(dev).initialized && final(dev).mac == old(dev).mac
            } else {
                r.0 is None && r.1 is None && *final(dev) == *old(dev)
            }
        }),
{
    if !is_initialized(dev) {
        return (None, None);
    }
    let head = rx_head as usize;
    let rx_next = (dev.rx_tail + 1) % RX_DESC_COUNT;
    if rx_next == head {
        return (None, None);
    }
    let desc = dev.rx_descs[rx_next];
    if desc.status & DESC_STATUS_DD == 0 {
        return (None, None);
    }
    let length = desc.length as usize;
    if length > 0 && length <= RX_BUFFER_SIZE {
        assert(dev.rx_buffers@[rx_next as int]@.len() == RX_BUFFER_SIZE);
        let packet = vstd::slice::slice_to_vec(&dev.rx_buffers[rx_next].as_slice()[0..length]);
        let mut d = desc;
        d.status = 0;
        dev.rx_descs.set(rx_next, d);
        dev.rx_tail = rx_next;
        return (Some(packet), Some((REG_RDT, rx_next as u32)));
    }
    (None, None)
}

/// Queue `data` for sending, given the transmit head register: it is copied into the
/// buffer at the tail, whose descriptor gets the length and the end-of-packet and
/// report-status commands; the tail moves on and its register write is returned.
pub fn send_packet(dev: &mut E1000, data: &[u8], tx_head: u32) -> (r: Result<(u32, u32), &'static str>)
    requires
        old(dev).wf(),
    ensures
        final(dev).wf(),
        !old(dev).initialized ==> (r matches Err(e) && e@ == "E1000 not initialized"@) && *final(dev) == *old(dev),
        old(dev).initialized && (data@.len() == 0 || data@.len() > RX_BUFFER_SIZE)
            ==> (r matches Err(e) && e@ == "Invalid packet size"@) && *final(dev) == *old(dev),
        old(dev).initialized && 0 < data@.len() <= RX_BUFFER_SIZE && (old(dev).tx_tail + 1) % 16 == tx_head
            ==> (r matches Err(e) && e@ == "Transmit queue full"@) && *final(dev) == *old(dev),
        old(dev).initialized && 0 < data@.len() <= RX_BUFFER_SIZE && (old(dev).tx_tail + 1) % 16 != tx_head ==> ({
            let t = old(dev).tx_tail as int;
            &&& r == Ok::<(u32, u32), &'static str>((REG_TDT, ((t + 1) % 16) as u32))
            &&& final(dev).tx_tail == (t + 1) % 16
            &&& final(dev).tx_buffers@[t]@ == data@ + old(dev).tx_buffers@[t]@.skip(data@.len() as int)
            &&& forall|k: int| 0 <= k < TX_DESC_COUNT && k != t ==> #[trigger] final(dev).tx_buffers@[k] == old(dev).tx_buffers@[k]
            &&& final(dev).tx_descs@ == old(dev).tx_descs@.update(t, TxDescriptor {
                length: data@.len() as u16, cmd: 9, status: 0, ..old(dev).tx_descs@[t] })
            &&& final(dev).rx_descs@ == old(dev).rx_descs@ && final(dev).rx_tail == old(dev).rx_tail
            &&& final(dev).rx_buffers@ == old(dev).rx_buffers@
            &&& final(dev).initialized && final(dev).mac == old(dev).mac
        }),
{
    if !is_initialized(dev) {
        return Err("E1000 not initialized");
    }
    if data.len() == 0 || data.len() > RX_BUFFER_SIZE {
        return Err("Invalid packet size");
    }
    let head = tx_head as usize;
    let tail = dev.tx_tail;
    let tx_next = (tail + 1) % TX_DESC_COUNT;
    if tx_next == head {
        return Err("Transmit queue full");
    }
    let mut buffer = dev.tx_buffers[tail].clone();
    assert(buffer@ == old(dev).tx_buffers@[tail as int]@);
    let mut i: usize = 0;
    while i < data.len()
        invariant
            i <= data@.len(),
            data@.len() <= RX_BUFFER_SIZE,
            buffer@.len() == RX_BUFFER_SIZE,
            forall|k: int| 0 <= k < i ==> #[trigger] buffer@[k] == data@[k],
            forall|k: int| i <= k < RX_BUFFER_SIZE ==> #[trigger] buffer@[k] == old(dev).tx_buffers@[tail as int]@[k],
        decreases data@.len() - i,
    {
        buffer.set(i, data[i]);
        i = i + 1;
    }
    assert(buffer@ =~= data@ + old(dev).tx_buffers@[tail as int]@.skip(data@.len() as int));
    dev.tx_buffers.set(tail, buffer);
    let mut d = dev.tx_descs[tail];
    d.length = data.len() as u16;
    let cmd: u8 = CMD_EOP | CMD_RS;
    assert(cmd == 9) by (bit_vector) requires cmd == 1u8 | 8u8;
    d.cmd = cmd;
    d.status = 0;
    dev.tx_descs.set(tail, d);
    dev.tx_tail = tx_next;
    proof {
        assert forall|k: int| 0 <= k < TX_DESC_COUNT implies #[trigger] dev.tx_buffers@[k]@.len() == RX_BUFFER_SIZE by {
            if k != tail {
                assert(dev.tx_buffers@[k] == old(dev).tx_buffers@[k]);
            }
        }
    }
    Ok((REG_TDT, tx_next as u32))
}

/// The device status register, when the card is set up; 0 otherwise.
pub fn get_status(dev: &E1000, status: u32) -> (s: u32)
    ensures
        s == if dev.initialized { status } else { 0 },
{
    if !is_initialized(dev) {
        return 0;
    }
    status
}

/// Whether the link is up (status bit 1), when the card is set up.
pub fn is_link_up(dev: &E1000, status: u32) -> (b: bool)
    ensures
        b == (dev.initialized && status & 2 != 0),
{
    if !is_initialized(dev) {
        return false;
    }
    let s = get_status(dev, status);
    assert((1u32 << 1u32) == 2u32) by (bit_vector);
    s & (1 << 1) != 0
}

} // verus!
