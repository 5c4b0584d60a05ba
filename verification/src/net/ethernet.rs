//! Ethernet frames: 6-byte destination and source addresses, a 2-byte big-endian type,
//! then the payload.

use vstd::prelude::*;

verus! {

/// An Ethernet frame read out of a byte buffer.
pub struct EthernetFrame<'a> {
    pub dest_mac: [u8; 6],
    pub src_mac: [u8; 6],
    pub ethertype: u16,
    pub payload: &'a [u8],
}

/// IPv4 ether type.
pub const ETHERTYPE_IPV4: u16 = 0x0800;
/// ARP ether type.
pub const ETHERTYPE_ARP: u16 = 0x0806;
/// IPv6 ether type.
pub const ETHERTYPE_IPV6: u16 = 0x86DD;

/// The broadcast address.
pub const BROADCAST_MAC: [u8; 6] = [0xFF, 0xFF, 0xFF, 0xFF, 0xFF, 0xFF];

/// The big-endian 16-bit value of two bytes.
pub open spec fn be16(hi: u8, lo: u8) -> u16 {
    (hi * 256 + lo) as u16
}

/// The two big-endian bytes of a 16-bit value.
pub open spec fn be16_bytes(v: u16) -> Seq<u8> {
    seq![(v / 256) as u8, (v % 256) as u8]
}

/// The big-endian 16-bit value of two bytes.
pub fn read_be16(hi: u8, lo: u8) -> (v: u16)
    ensures
        v == be16(hi, lo),
{
    (hi as u16) * 256 + (lo as u16)
}

/// The two big-endian bytes of a 16-bit value.
pub fn write_be16(v: u16) -> (b: (u8, u8))
    ensures
        seq![b.0, b.1] == be16_bytes(v),
{
    ((v / 256) as u8, (v % 256) as u8)
}

/// Read a frame: `None` when shorter than the 14-byte header.
pub fn parse_frame(data: &[u8]) -> (r: Option<EthernetFrame>)
    ensures
        data@.len() < 14 ==> r is None,
        data@.len() >= 14 ==> (r matches Some(f) && {
            &&& f.dest_mac@ == data@.subrange(0, 6)
            &&& f.src_mac@ == data@.subrange(6, 12)
            &&& f.ethertype == be16(data@[12], data@[13])
            &&& f.payload@ == data@.subrange(14, data@.len() as int)
        }),
{
    if data.len() < 14 {
        return None;
    }
    let dest_mac: [u8; 6] = [data[0], data[1], data[2], data[3], data[4], data[5]];
    let src_mac: [u8; 6] = [data[6], data[7], data[8], data[9], data[10], data[11]];
    let ethertype = read_be16(data[12], data[13]);
    assert(dest_mac@ =~= data@.subrange(0, 6));
    assert(src_mac@ =~= data@.subrange(6, 12));
    Some(EthernetFrame { dest_mac, src_mac, ethertype, payload: &data[14..data.len()] })
}

/// The frame bytes for the given header and payload.
pub open spec fn frame_bytes(dest_mac: Seq<u8>, src_mac: Seq<u8>, ethertype: u16, payload: Seq<u8>) -> Seq<u8> {
    dest_mac + src_mac + be16_bytes(ethertype) + payload
}

/// Write a frame into `buffer` and return its length, or 0 (leaving the buffer alone)
/// when the buffer is too short.
pub fn build_frame(dest_mac: [u8; 6], src_mac: [u8; 6], ethertype: u16, payload: &[u8], buffer: &mut [u8]) -> (n: usize)
    requires
        payload@.len() + 14 <= usize::MAX,
    ensures
        final(buffer)@.len() == old(buffer)@.len(),
        old(buffer)@.len() < 14 + payload@.len() ==> n == 0 && final(buffer)@ == old(buffer)@,
        old(buffer)@.len() >= 14 + payload@.len() ==> {
            &&& n == 14 + payload@.len()
            &&& final(buffer)@.subrange(0, n as int) == frame_bytes(dest_mac@, src_mac@, ethertype, payload@)
            &&& final(buffer)@.subrange(n as int, old(buffer)@.len() as int)
                == old(buffer)@.subrange(n as int, old(buffer)@.len() as int)
        },
{
    if buffer.len() < 14 + payload.len() {
        return 0;
    }
    let mut i: usize = 0;
    while i < 6
        invariant
            i <= 6,
            buffer@.len() == old(buffer)@.len(),
            buffer@.len() >= 14 + payload@.len(),
            forall|j: int| 0 <= j < i ==> buffer@[j] == dest_mac@[j],
            forall|j: int| i <= j < buffer@.len() ==> buffer@[j] == old(buffer)@[j],
        decreases 6 - i,
    {
        buffer[i] = dest_mac[i];
        i = i + 1;
    }
    let mut i: usize = 0;
    while i < 6
        invariant
            i <= 6,
            buffer@.len() == old(buffer)@.len(),
            buffer@.len() >= 14 + payload@.len(),
            forall|j: int| 0 <= j < 6 ==> buffer@[j] == dest_mac@[j],
            forall|j: int| 6 <= j < 6 + i ==> buffer@[j] == src_mac@[j - 6],
            forall|j: int| 6 + i <= j < buffer@.len() ==> buffer@[j] == old(buffer)@[j],
        decreases 6 - i,
    {
        buffer[6 + i] = src_mac[i];
        i = i + 1;
    }
    let (hi, lo) = write_be16(ethertype);
    buffer[12] = hi;
    buffer[13] = lo;
    let mut i: usize = 0;
    while i < payload.len()
        invariant
            i <= payload@.len(),
            payload@.len() + 14 <= usize::MAX,
            buffer@.len() == old(buffer)@.len(),
            buffer@.len() >= 14 + payload@.len(),
            forall|j: int| 0 <= j < 6 ==> buffer@[j] == dest_mac@[j],
            forall|j: int| 6 <= j < 12 ==> buffer@[j] == src_mac@[j - 6],
            buffer@[12] == hi,
            buffer@[13] == lo,
            forall|j: int| 14 <= j < 14 + i ==> buffer@[j] == payload@[j - 14],
            forall|j: int| 14 + i <= j < buffer@.len() ==> buffer@[j] == old(buffer)@[j],
        decreases payload@.len() - i,
    {
        buffer[14 + i] = payload[i];
        i = i + 1;
    }
    let n = 14 + payload.len();
    assert(buffer@.subrange(0, n as int) =~= frame_bytes(dest_mac@, src_mac@, ethertype, payload@));
    assert(buffer@.subrange(n as int, buffer@.len() as int) =~= old(buffer)@.subrange(n as int, old(buffer)@.len() as int));
    n
}

/// Whether two MAC addresses are equal.
pub fn mac_equals(a: &[u8; 6], b: &[u8; 6]) -> (r: bool)
    ensures
        r == (a@ == b@),
{
    let r = a[0] == b[0] && a[1] == b[1] && a[2] == b[2] && a[3] == b[3] && a[4] == b[4] && a[5] == b[5];
    if r {
        assert(a@ =~= b@);
    } else {
        assert(a@ != b@) by {
            if a@ == b@ {
                assert(a@[0] == b@[0] && a@[1] == b@[1] && a@[2] == b@[2]);
                assert(a@[3] == b@[3] && a@[4] == b@[4] && a@[5] == b@[5]);
            }
        }
    }
    r
}

/// Building a frame and parsing it back gives the same addresses, type and payload.
pub proof fn law_parse_build_roundtrip(dest_mac: Seq<u8>, src_mac: Seq<u8>, ethertype: u16, payload: Seq<u8>)
    requires
        dest_mac.len() == 6,
        src_mac.len() == 6,
    ensures
        ({
            let f = frame_bytes(dest_mac, src_mac, ethertype, payload);
            &&& f.len() == 14 + payload.len()
            &&& f.subrange(0, 6) == dest_mac
            &&& f.subrange(6, 12) == src_mac
            &&& be16(f[12], f[13]) == ethertype
            &&& f.subrange(14, f.len() as int) == payload
        }),
{
    let f = frame_bytes(dest_mac, src_mac, ethertype, payload);
    assert(f.subrange(0, 6) =~= dest_mac);
    assert(f.subrange(6, 12) =~= src_mac);
    assert(f.subrange(14, f.len() as int) =~= payload);
    assert(f[12] == (ethertype / 256) as u8 && f[13] == (ethertype % 256) as u8);
}

} // verus!
