//! ARP: packet parsing and building, and a 16-entry cache from IPv4 to MAC addresses.

use vstd::prelude::*;
use crate::net::ethernet::{self, be16, be16_bytes, read_be16, write_be16, frame_bytes, ETHERTYPE_ARP, ETHERTYPE_IPV4};
use crate::net::ipv4::ip_equals;

verus! {

/// An ARP packet.
pub struct ArpPacket<'a> {
    pub hardware_type: u16,
    pub protocol_type: u16,
    pub hardware_size: u8,
    pub protocol_size: u8,
    pub opcode: u16,
    pub sender_mac: [u8; 6],
    pub sender_ip: [u8; 4],
    pub target_mac: [u8; 6],
    pub target_ip: [u8; 4],
    pub _marker: core::marker::PhantomData<&'a ()>,
}

/// Request opcode.
pub const ARP_REQUEST: u16 = 1;
/// Reply opcode.
pub const ARP_REPLY: u16 = 2;
/// Ethernet hardware type.
pub const HW_TYPE_ETHERNET: u16 = 1;

/// One cache entry.
#[derive(Clone, Copy)]
pub struct ArpCacheEntry {
    pub ip: [u8; 4],
    pub mac: [u8; 6],
    pub valid: bool,
}

impl ArpCacheEntry {
    /// Whether the entry holds a mapping.
    pub fn is_valid(&self) -> (b: bool)
        ensures
            b == self.valid,
    {
        self.valid
    }

    /// The entry's IPv4 address.
    pub fn get_ip(&self) -> (ip: [u8; 4])
        ensures
            ip == self.ip,
    {
        self.ip
    }

    /// The entry's MAC address.
    pub fn get_mac(&self) -> (mac: [u8; 6])
        ensures
            mac == self.mac,
    {
        self.mac
    }
}

/// The ARP cache.
pub struct ArpCache {
    pub entries: [ArpCacheEntry; 16],
}

/// The cache's entries.
pub fn get_cache_entries(cache: &ArpCache) -> (e: &[ArpCacheEntry; 16])
    ensures
        e@ == cache.entries@,
{
    &cache.entries
}

impl ArpCache {
    /// An empty cache: every entry zero and invalid.
    pub fn new() -> (c: ArpCache)
        ensures
            forall|i: int| 0 <= i < 16 ==> !(#[trigger] c.entries@[i]).valid,
    {
        let e = ArpCacheEntry { ip: [0u8; 4], mac: [0u8; 6], valid: false };
        ArpCache { entries: [e; 16] }
    }
}

/// Prepare the cache (it starts out empty; nothing to do).
pub fn init(cache: &mut ArpCache)
    ensures
        final(cache).entries@ == old(cache).entries@,
{
}

/// Read an ARP packet: `None` when shorter than 28 bytes.
pub fn parse_packet(data: &[u8]) -> (r: Option<ArpPacket>)
    ensures
        data@.len() < 28 ==> r is None,
        data@.len() >= 28 ==> (r matches Some(p) && {
            &&& p.hardware_type == be16(data@[0], data@[1])
            &&& p.protocol_type == be16(data@[2], data@[3])
            &&& p.hardware_size == data@[4]
            &&& p.protocol_size == data@[5]
            &&& p.opcode == be16(data@[6], data@[7])
            &&& p.sender_mac@ == data@.subrange(8, 14)
            &&& p.sender_ip@ == data@.subrange(14, 18)
            &&& p.target_mac@ == data@.subrange(18, 24)
            &&& p.target_ip@ == data@.subrange(24, 28)
        }),
{
    if data.len() < 28 {
        return None;
    }
    let sender_mac: [u8; 6] = [data[8], data[9], data[10], data[11], data[12], data[13]];
    let sender_ip: [u8; 4] = [data[14], data[15], data[16], data[17]];
    let target_mac: [u8; 6] = [data[18], data[19], data[20], data[21], data[22], data[23]];
    let target_ip: [u8; 4] = [data[24], data[25], data[26], data[27]];
    assert(sender_mac@ =~= data@.subrange(8, 14));
    assert(sender_ip@ =~= data@.subrange(14, 18));
    assert(target_mac@ =~= data@.subrange(18, 24));
    assert(target_ip@ =~= data@.subrange(24, 28));
    Some(ArpPacket {
        hardware_type: read_be16(data[0], data[1]),
        protocol_type: read_be16(data[2], data[3]),
        hardware_size: data[4],
        protocol_size: data[5],
        opcode: read_be16(data[6], data[7]),
        sender_mac,
        sender_ip,
        target_mac,
        target_ip,
        _marker: core::marker::PhantomData,
    })
}

/// The 28 bytes of an Ethernet/IPv4 ARP packet.
pub open spec fn arp_bytes(opcode: u16, sender_mac: Seq<u8>, sender_ip: Seq<u8>, target_mac: Seq<u8>, target_ip: Seq<u8>) -> Seq<u8> {
    be16_bytes(HW_TYPE_ETHERNET) + be16_bytes(ETHERTYPE_IPV4) + seq![6u8, 4u8] + be16_bytes(opcode)
        + sender_mac + sender_ip + target_mac + target_ip
}

/// The Ethernet frame carrying an ARP packet from `our_mac` to `dest_mac`.
pub open spec fn arp_frame(dest_mac: Seq<u8>, our_mac: Seq<u8>, opcode: u16, our_ip: Seq<u8>, target_mac: Seq<u8>, target_ip: Seq<u8>) -> Seq<u8> {
    frame_bytes(dest_mac, our_mac, ETHERTYPE_ARP, arp_bytes(opcode, our_mac, our_ip, target_mac, target_ip))
}

fn arp_payload(opcode: u16, sender_mac: [u8; 6], sender_ip: [u8; 4], target_mac: [u8; 6], target_ip: [u8; 4]) -> (b: [u8; 28])
    ensures
        b@ == arp_bytes(opcode, sender_mac@, sender_ip@, target_mac@, target_ip@),
{
    let (h0, h1) = write_be16(HW_TYPE_ETHERNET);
    let (p0, p1) = write_be16(ETHERTYPE_IPV4);
    let (o0, o1) = write_be16(opcode);
    let b: [u8; 28] = [h0, h1, p0, p1, 6, 4, o0, o1,
        sender_mac[0], sender_mac[1], sender_mac[2], sender_mac[3], sender_mac[4], sender_mac[5],
        sender_ip[0], sender_ip[1], sender_ip[2], sender_ip[3],
        target_mac[0], target_mac[1], target_mac[2], target_mac[3], target_mac[4], target_mac[5],
        target_ip[0], target_ip[1], target_ip[2], target_ip[3]];
    proof {
        assert(seq![h0, h1] == be16_bytes(HW_TYPE_ETHERNET));
        assert(seq![p0, p1] == be16_bytes(ETHERTYPE_IPV4));
        assert(seq![o0, o1] == be16_bytes(opcode));
        assert(seq![h0, h1][0] == h0 && seq![p0, p1][0] == p0 && seq![o0, o1][0] == o0);
        assert(seq![h0, h1][1] == h1 && seq![p0, p1][1] == p1 && seq![o0, o1][1] == o1);
        assert(b@ =~= arp_bytes(opcode, sender_mac@, sender_ip@, target_mac@, target_ip@));
    }
    b
}

fn arp_frame_vec(dest_mac: [u8; 6], our_mac: [u8; 6], opcode: u16, our_ip: [u8; 4], target_mac: [u8; 6], target_ip: [u8; 4]) -> (v: Vec<u8>)
    ensures
        v@ == arp_frame(dest_mac@, our_mac@, opcode, our_ip@, target_mac@, target_ip@),
{
    let arp_buffer = arp_payload(opcode, our_mac, our_ip, target_mac, target_ip);
    let mut frame_buffer: [u8; 64] = [0u8; 64];
    let frame_len = ethernet::build_frame(dest_mac, our_mac, ETHERTYPE_ARP, arp_buffer.as_slice(), &mut frame_buffer);
    vstd::slice::slice_to_vec(&frame_buffer.as_slice()[0..frame_len])
}

/// The frame `send_arp_request` sends: a broadcast request for `target_ip`, target
/// address zero.
pub open spec fn arp_request_frame(our_mac: Seq<u8>, our_ip: Seq<u8>, target_ip: Seq<u8>) -> Seq<u8> {
    arp_frame(ethernet::BROADCAST_MAC@, our_mac, ARP_REQUEST, our_ip, seq![0u8, 0u8, 0u8, 0u8, 0u8, 0u8], target_ip)
}

/// The broadcast ARP request frame asking for `target_ip`, to be sent by the caller.
pub fn send_arp_request(our_mac: [u8; 6], our_ip: [u8; 4], target_ip: [u8; 4]) -> (frame: Vec<u8>)
    ensures
        frame@ == arp_request_frame(our_mac@, our_ip@, target_ip@),
{
    let zero: [u8; 6] = [0u8; 6];
    assert(zero@ =~= seq![0u8, 0u8, 0u8, 0u8, 0u8, 0u8]);
    arp_frame_vec(ethernet::BROADCAST_MAC, our_mac, ARP_REQUEST, our_ip, zero, target_ip)
}

/// The ARP reply frame telling `dest_ip` at `dest_mac` that `our_ip` is at `our_mac`,
/// to be sent by the caller.
pub fn send_arp_reply(our_mac: [u8; 6], our_ip: [u8; 4], dest_mac: [u8; 6], dest_ip: [u8; 4]) -> (frame: Vec<u8>)
    ensures
        frame@ == arp_frame(dest_mac@, our_mac@, ARP_REPLY, our_ip@, dest_mac@, dest_ip@),
{
    arp_frame_vec(dest_mac, our_mac, ARP_REPLY, our_ip, dest_mac, dest_ip)
}

/// The index `add_to_cache` writes: the first entry that is invalid or holds `ip`, else 0.
pub open spec fn cache_slot(entries: Seq<ArpCacheEntry>, ip: Seq<u8>) -> int {
    if exists|i: int| 0 <= i < 16 && #[trigger] slot_free_or_same(entries[i], ip) {
        choose|i: int| 0 <= i < 16 && #[trigger] slot_free_or_same(entries[i], ip)
            && forall|j: int| 0 <= j < i ==> !#[trigger] slot_free_or_same(entries[j], ip)
    } else {
        0
    }
}

pub open spec fn slot_free_or_same(e: ArpCacheEntry, ip: Seq<u8>) -> bool {
    !e.valid || e.ip@ == ip
}

/// Record `ip` at `mac`: in the first entry that is free or already holds `ip`, else
/// in entry 0.
pub fn add_to_cache(cache: &mut ArpCache, ip: [u8; 4], mac: [u8; 6])
    ensures
        final(cache).entries@ == old(cache).entries@.update(cache_slot(old(cache).entries@, ip@),
            ArpCacheEntry { ip, mac, valid: true }),
{
    let ghost pre = cache.entries@;
    let mut i: usize = 0;
    while i < 16
        invariant
            i <= 16,
            cache.entries@ == pre,
            old(cache).entries@ == pre,
            forall|j: int| 0 <= j < i ==> !#[trigger] slot_free_or_same(pre[j], ip@),
        decreases 16 - i,
    {
        let e = cache.entries[i];
        if !e.valid || ip_equals(&e.ip, &ip) {
            proof {
                assert(slot_free_or_same(pre[i as int], ip@));
                let w = choose|w: int| 0 <= w < 16 && #[trigger] slot_free_or_same(pre[w], ip@)
                    && forall|j: int| 0 <= j < w ==> !#[trigger] slot_free_or_same(pre[j], ip@);
                if w < i { assert(!slot_free_or_same(pre[w], ip@)); }
                if w > i { assert(!slot_free_or_same(pre[i as int], ip@)); }
            }
            cache.entries[i] = ArpCacheEntry { ip, mac, valid: true };
            return;
        }
        i = i + 1;
    }
    cache.entries[0] = ArpCacheEntry { ip, mac, valid: true };
}

/// The MAC address recorded for `ip`: the first valid entry holding it.
pub open spec fn cache_lookup(entries: Seq<ArpCacheEntry>, ip: Seq<u8>) -> Option<[u8; 6]> {
    if exists|i: int| 0 <= i < 16 && #[trigger] entries[i].valid && entries[i].ip@ == ip {
        let i = choose|i: int| 0 <= i < 16 && #[trigger] entries[i].valid && entries[i].ip@ == ip
            && forall|j: int| 0 <= j < i ==> !(#[trigger] entries[j].valid && entries[j].ip@ == ip);
        Some(entries[i].mac)
    } else {
        None
    }
}

/// Look up the MAC address recorded for `ip`.
pub fn lookup_mac(cache: &ArpCache, ip: [u8; 4]) -> (r: Option<[u8; 6]>)
    ensures
        r == cache_lookup(cache.entries@, ip@),
{
    let mut i: usize = 0;
    while i < 16
        invariant
            i <= 16,
            forall|j: int| 0 <= j < i ==> !(#[trigger] cache.entries@[j].valid && cache.entries@[j].ip@ == ip@),
        decreases 16 - i,
    {
        let e = cache.entries[i];
        if e.valid && ip_equals(&e.ip, &ip) {
            proof {
                let es = cache.entries@;
                assert(es[i as int].valid && es[i as int].ip@ == ip@);
                let w = choose|w: int| 0 <= w < 16 && #[trigger] es[w].valid && es[w].ip@ == ip@
                    && forall|j: int| 0 <= j < w ==> !(#[trigger] es[j].valid && es[j].ip@ == ip@);
                if w < i { assert(!(es[w].valid && es[w].ip@ == ip@)); }
                if w > i { assert(!(es[i as int].valid && es[i as int].ip@ == ip@)); }
            }
            return Some(e.mac);
        }
        i = i + 1;
    }
    None
}

/// What `handle_packet` sends: a reply to a request for `our_ip`, nothing otherwise.
pub open spec fn arp_response(opcode: u16, sender_mac: Seq<u8>, sender_ip: Seq<u8>, target_ip: Seq<u8>,
    our_mac: Seq<u8>, our_ip: Seq<u8>) -> Option<Seq<u8>> {
    if opcode == ARP_REQUEST && target_ip == our_ip {
        Some(arp_frame(sender_mac, our_mac, ARP_REPLY, our_ip, sender_mac, sender_ip))
    } else {
        None
    }
}

/// Handle an ARP packet: record the sender in the cache, and answer a request for our
/// address with a reply frame (returned for the caller to send).
pub fn handle_packet(cache: &mut ArpCache, our_mac: [u8; 6], our_ip: [u8; 4], packet: &ArpPacket) -> (r: Option<Vec<u8>>)
    ensures
        final(cache).entries@ == old(cache).entries@.update(cache_slot(old(cache).entries@, packet.sender_ip@),
            ArpCacheEntry { ip: packet.sender_ip, mac: packet.sender_mac, valid: true }),
        match arp_response(packet.opcode, packet.sender_mac@, packet.sender_ip@, packet.target_ip@, our_mac@, our_ip@) {
            Some(f) => r matches Some(v) && v@ == f,
            None => r is None,
        },
{
    add_to_cache(cache, packet.sender_ip, packet.sender_mac);
    if packet.opcode == ARP_REQUEST {
        if ip_equals(&packet.target_ip, &our_ip) {
            return Some(send_arp_reply(our_mac, our_ip, packet.sender_mac, packet.sender_ip));
        }
    }
    None
}

/// After a packet from `ip` has been handled, `ip` is found in the cache at the
/// sender's address.
pub proof fn law_lookup_after_add(pre: Seq<ArpCacheEntry>, ip: [u8; 4], mac: [u8; 6])
    requires
        pre.len() == 16,
    ensures
        cache_lookup(pre.update(cache_slot(pre, ip@), ArpCacheEntry { ip, mac, valid: true }), ip@) == Some(mac),
{
    let post = pre.update(cache_slot(pre, ip@), ArpCacheEntry { ip, mac, valid: true });
    let k = cache_slot(pre, ip@);
    assert(0 <= k < 16);
    assert(post[k].valid && post[k].ip@ == ip@);
    let w = choose|w: int| 0 <= w < 16 && #[trigger] post[w].valid && post[w].ip@ == ip@
        && forall|j: int| 0 <= j < w ==> !(#[trigger] post[j].valid && post[j].ip@ == ip@);
    if w < k {
        assert(post[w] == pre[w]);
        if exists|i: int| 0 <= i < 16 && #[trigger] slot_free_or_same(pre[i], ip@) {
            assert(!slot_free_or_same(pre[w], ip@));
        } else {
            assert(!slot_free_or_same(pre[w], ip@));
        }
    }
    if w > k {
        assert(!(post[k].valid && post[k].ip@ == ip@));
    }
}

} // verus!
