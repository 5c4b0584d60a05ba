//! IPv4 headers and the Internet checksum.

use vstd::prelude::*;
use vstd::arithmetic::div_mod::{lemma_mod_multiples_vanish, lemma_fundamental_div_mod};
use crate::net::ethernet::{be16, be16_bytes, read_be16, write_be16};

verus! {

/// An IPv4 packet read out of a byte buffer.
pub struct Ipv4Packet<'a> {
    pub version: u8,
    pub ihl: u8,
    pub dscp: u8,
    pub ecn: u8,
    pub total_length: u16,
    pub identification: u16,
    pub flags: u8,
    pub fragment_offset: u16,
    pub ttl: u8,
    pub protocol: u8,
    pub checksum: u16,
    pub source_ip: [u8; 4],
    pub dest_ip: [u8; 4],
    pub payload: &'a [u8],
}

/// ICMP protocol number.
pub const PROTOCOL_ICMP: u8 = 1;
/// TCP protocol number.
pub const PROTOCOL_TCP: u8 = 6;
/// UDP protocol number.
pub const PROTOCOL_UDP: u8 = 17;

/// The 16-bit word at even offset `i`; a lone last byte is padded with a zero byte.
pub open spec fn word_at(data: Seq<u8>, i: int) -> int {
    if i + 1 < data.len() { data[i] * 256 + data[i + 1] } else { data[i] * 256 }
}

/// The sum of the first `k` words.
pub open spec fn word_sum(data: Seq<u8>, k: int) -> int
    decreases k,
{
    if k <= 0 { 0 } else { word_sum(data, k - 1) + word_at(data, 2 * (k - 1)) }
}

/// The number of words, counting a lone last byte as one.
pub open spec fn word_count(data: Seq<u8>) -> int {
    ((data.len() + 1) / 2) as int
}

/// End-around carry: fold the carries above 16 bits back in until none is left.
pub open spec fn fold16(s: int) -> int
    decreases s,
{
    if s < 65536 {
        s
    } else {
        fold16(s % 65536 + s / 65536)
    }
}

/// The Internet checksum of `data`: the ones' complement of its ones'-complement sum.
pub open spec fn checksum_spec(data: Seq<u8>) -> u16 {
    (65535 - fold16(word_sum(data, word_count(data)))) as u16
}

proof fn lemma_word_sum_bound(data: Seq<u8>, k: int)
    requires
        0 <= k,
        2 * k <= data.len() + 1,
    ensures
        0 <= word_sum(data, k) <= 65535 * k,
    decreases k,
{
    if k > 0 {
        lemma_word_sum_bound(data, k - 1);
    }
}

proof fn lemma_fold_step(s: int)
    requires
        s >= 65536,
    ensures
        0 <= s % 65536 + s / 65536 < s,
        (s % 65536 + s / 65536) % 65535 == s % 65535,
{
    lemma_fundamental_div_mod(s, 65536);
    let q = s / 65536;
    let r = s % 65536;
    assert(s == 65535 * q + (q + r));
    lemma_mod_multiples_vanish(q, q + r, 65535);
}

/// Folding keeps the value modulo 65535, lands in 0 ..= 65535, and stays positive.
proof fn lemma_fold16(s: int)
    requires
        s >= 0,
    ensures
        fold16(s) % 65535 == s % 65535,
        0 <= fold16(s) <= 65535,
        s > 0 ==> fold16(s) > 0,
    decreases s,
{
    if s >= 65536 {
        lemma_fold_step(s);
        lemma_fold16(s % 65536 + s / 65536);
    }
}

/// Compute the Internet checksum of `data`.
pub fn calculate_checksum(data: &[u8]) -> (c: u16)
    requires
        data@.len() <= 131074,
    ensures
        c == checksum_spec(data@),
{
    let mut sum: u32 = 0;
    let mut i: usize = 0;
    while i < data.len()
        invariant
            data@.len() <= 131074,
            i % 2 == 0,
            i <= data@.len() + 1,
            sum == word_sum(data@, (i / 2) as int),
        decreases data@.len() + 1 - i,
    {
        proof {
            lemma_word_sum_bound(data@, (i / 2) as int + 1);
        }
        if i + 1 < data.len() {
            let word = read_be16(data[i], data[i + 1]);
            sum = sum + word as u32;
        } else {
            let b = data[i];
            assert((b as u32) << 8 == b * 256) by (bit_vector);
            sum = sum + ((b as u32) << 8);
        }
        i = i + 2;
    }
    assert(i / 2 == word_count(data@));
    let ghost total = sum as int;
    while sum >> 16 != 0
        invariant
            fold16(sum as int) == fold16(total),
        decreases sum,
    {
        let s0 = sum;
        assert(s0 >> 16 == s0 / 65536 && s0 & 0xFFFF == s0 % 65536) by (bit_vector);
        assert(s0 >> 16 != 0 ==> s0 >= 65536) by (bit_vector);
        assert((s0 & 0xFFFF) + (s0 >> 16) <= 0x1FFFE) by (bit_vector);
        sum = (sum & 0xFFFF) + (sum >> 16);
        proof {
            lemma_fold_step(s0 as int);
        }
    }
    assert(sum >> 16 == 0 ==> sum < 65536) by (bit_vector);
    assert(sum < 65536 ==> (!sum) as u16 == 65535 - sum) by (bit_vector);
    !sum as u16
}

/// Replacing a zero word at even offset `p` by `c` adds `c` to every partial sum that
/// covers it.
proof fn lemma_word_sum_update(data: Seq<u8>, p: int, c: u16, k: int)
    requires
        0 <= p,
        p % 2 == 0,
        p + 1 < data.len(),
        data[p] == 0,
        data[p + 1] == 0,
        0 <= k,
        2 * k <= data.len() + 1,
    ensures
        ({
            let d2 = data.update(p, (c / 256) as u8).update(p + 1, (c % 256) as u8);
            word_sum(d2, k) == word_sum(data, k) + if 2 * k > p { c as int } else { 0 }
        }),
    decreases k,
{
    let d2 = data.update(p, (c / 256) as u8).update(p + 1, (c % 256) as u8);
    if k > 0 {
        lemma_word_sum_update(data, p, c, k - 1);
        let i = 2 * (k - 1);
        if i == p {
            assert(word_at(d2, i) == c);
        } else {
            assert(i + 2 <= p || i >= p + 2);
            assert(d2[i] == data[i]);
            if i + 1 < data.len() {
                assert(d2[i + 1] == data[i + 1]);
            }
            assert(word_at(d2, i) == word_at(data, i));
        }
    }
}

/// The checksum verifies: when the zero checksum field at even offset `p` is filled
/// with the checksum of the data, the checksum of the result is 0.
pub proof fn law_checksum_verifies(data: Seq<u8>, p: int)
    requires
        0 <= p,
        p % 2 == 0,
        p + 1 < data.len(),
        data[p] == 0,
        data[p + 1] == 0,
    ensures
        ({
            let c = checksum_spec(data);
            checksum_spec(data.update(p, (c / 256) as u8).update(p + 1, (c % 256) as u8)) == 0
        }),
{
    let c = checksum_spec(data);
    let d2 = data.update(p, (c / 256) as u8).update(p + 1, (c % 256) as u8);
    let n = word_count(data);
    assert(word_count(d2) == n);
    let s = word_sum(data, n);
    lemma_word_sum_bound(data, n);
    lemma_fold16(s);
    lemma_word_sum_update(data, p, c, n);
    let s2 = word_sum(d2, n);
    assert(s2 == s + c);
    lemma_fold16(s2);
    assert(c == 65535 - fold16(s));
    lemma_fundamental_div_mod(s, 65535);
    lemma_fundamental_div_mod(fold16(s), 65535);
    assert((s + c) % 65535 == 0) by {
        lemma_mod_multiples_vanish(s / 65535 - fold16(s) / 65535 + 1, 0, 65535);
        assert(s + c == 65535 * (s / 65535 - fold16(s) / 65535 + 1));
    }
    if s2 == 0 {
        assert(fold16(s) == 0);
    }
    assert(fold16(s2) == 65535);
}

/// Read an IPv4 packet: `None` when shorter than 20 bytes, not version 4, or shorter
/// than its header length (IHL words of 4 bytes). The payload starts after the header.
pub fn parse_packet(data: &[u8]) -> (r: Option<Ipv4Packet>)
    ensures
        match r {
            None => data@.len() < 20 || data@[0] / 16 != 4 || data@.len() < (data@[0] % 16) * 4,
            Some(p) => {
                &&& data@.len() >= 20
                &&& p.version == 4 && data@[0] / 16 == 4
                &&& p.ihl == data@[0] % 16
                &&& data@.len() >= p.ihl * 4
                &&& p.dscp == data@[1] / 4
                &&& p.ecn == data@[1] % 4
                &&& p.total_length == be16(data@[2], data@[3])
                &&& p.identification == be16(data@[4], data@[5])
                &&& p.flags == data@[6] / 32
                &&& p.fragment_offset == be16((data@[6] % 32) as u8, data@[7])
                &&& p.ttl == data@[8]
                &&& p.protocol == data@[9]
                &&& p.checksum == be16(data@[10], data@[11])
                &&& p.source_ip@ == data@.subrange(12, 16)
                &&& p.dest_ip@ == data@.subrange(16, 20)
                &&& p.payload@ == data@.subrange(p.ihl * 4, data@.len() as int)
            },
        },
{
    if data.len() < 20 {
        return None;
    }
    let b0 = data[0];
    let version = (b0 >> 4) & 0x0F;
    let ihl = b0 & 0x0F;
    assert(version == b0 / 16 && ihl == b0 % 16) by (bit_vector)
        requires version == (b0 >> 4) & 0x0F, ihl == b0 & 0x0F;
    if version != 4 {
        return None;
    }
    let header_len = (ihl as usize) * 4;
    if data.len() < header_len {
        return None;
    }
    let b1 = data[1];
    let dscp = (b1 >> 2) & 0x3F;
    let ecn = b1 & 0x03;
    assert(dscp == b1 / 4 && ecn == b1 % 4) by (bit_vector)
        requires dscp == (b1 >> 2) & 0x3F, ecn == b1 & 0x03;
    let total_length = read_be16(data[2], data[3]);
    let identification = read_be16(data[4], data[5]);
    let b6 = data[6];
    let flags = (b6 >> 5) & 0x07;
    let frag_hi = b6 & 0x1F;
    assert(flags == b6 / 32 && frag_hi == b6 % 32) by (bit_vector)
        requires flags == (b6 >> 5) & 0x07, frag_hi == b6 & 0x1F;
    let fragment_offset = read_be16(frag_hi, data[7]);
    let ttl = data[8];
    let protocol = data[9];
    let checksum = read_be16(data[10], data[11]);
    let source_ip: [u8; 4] = [data[12], data[13], data[14], data[15]];
    let dest_ip: [u8; 4] = [data[16], data[17], data[18], data[19]];
    assert(source_ip@ =~= data@.subrange(12, 16));
    assert(dest_ip@ =~= data@.subrange(16, 20));
    Some(Ipv4Packet {
        version,
        ihl,
        dscp,
        ecn,
        total_length,
        identification,
        flags,
        fragment_offset,
        ttl,
        protocol,
        checksum,
        source_ip,
        dest_ip,
        payload: &data[header_len..data.len()],
    })
}

/// The 20-byte header `build_packet` writes, with checksum field `csum`.
pub open spec fn header_bytes(total_length: u16, protocol: u8, src: Seq<u8>, dst: Seq<u8>, csum: u16) -> Seq<u8> {
    seq![0x45u8, 0u8] + be16_bytes(total_length) + seq![0u8, 0u8, 0x40u8, 0u8, 64u8, protocol]
        + be16_bytes(csum) + src + dst
}

/// The header with its checksum filled in.
pub open spec fn checked_header(total_length: u16, protocol: u8, src: Seq<u8>, dst: Seq<u8>) -> Seq<u8> {
    header_bytes(total_length, protocol, src, dst,
        checksum_spec(header_bytes(total_length, protocol, src, dst, 0)))
}

/// Write the header with a zero checksum field into `buffer[0..20]`.
fn fill_header(buffer: &mut [u8], tl16: u16, protocol: u8, our_ip: [u8; 4], dest_ip: [u8; 4])
    requires
        old(buffer)@.len() >= 20,
    ensures
        final(buffer)@.len() == old(buffer)@.len(),
        final(buffer)@.subrange(0, 20) == header_bytes(tl16, protocol, our_ip@, dest_ip@, 0),
        forall|j: int| 20 <= j < old(buffer)@.len() ==> final(buffer)@[j] == old(buffer)@[j],
{
    let (t_hi, t_lo) = write_be16(tl16);
    buffer[0] = 0x45;
    buffer[1] = 0;
    buffer[2] = t_hi;
    buffer[3] = t_lo;
    buffer[4] = 0;
    buffer[5] = 0;
    buffer[6] = 0x40;
    buffer[7] = 0;
    buffer[8] = 64;
    buffer[9] = protocol;
    buffer[10] = 0;
    buffer[11] = 0;
    buffer[12] = our_ip[0];
    buffer[13] = our_ip[1];
    buffer[14] = our_ip[2];
    buffer[15] = our_ip[3];
    buffer[16] = dest_ip[0];
    buffer[17] = dest_ip[1];
    buffer[18] = dest_ip[2];
    buffer[19] = dest_ip[3];
    assert(buffer@.subrange(0, 20) =~= header_bytes(tl16, protocol, our_ip@, dest_ip@, 0));
}

/// Write an IPv4 packet from `our_ip` to `dest_ip` carrying `payload` into `buffer`:
/// version 4, 20-byte header, don't-fragment, TTL 64, total length truncated to 16 bits,
/// header checksum filled in. Returns its length, or 0 when the buffer is too short.
pub fn build_packet(our_ip: [u8; 4], dest_ip: [u8; 4], protocol: u8, payload: &[u8], buffer: &mut [u8]) -> (n: usize)
    requires
        payload@.len() + 20 <= usize::MAX,
    ensures
        final(buffer)@.len() == old(buffer)@.len(),
        old(buffer)@.len() < 20 + payload@.len() ==> n == 0 && final(buffer)@ == old(buffer)@,
        old(buffer)@.len() >= 20 + payload@.len() ==> {
            &&& n == 20 + payload@.len()
            &&& final(buffer)@.subrange(0, 20)
                == checked_header(((20 + payload@.len()) % 65536) as u16, protocol, our_ip@, dest_ip@)
            &&& final(buffer)@.subrange(20, n as int) == payload@
            &&& final(buffer)@.subrange(n as int, old(buffer)@.len() as int)
                == old(buffer)@.subrange(n as int, old(buffer)@.len() as int)
        },
{
    let total_length = 20 + payload.len();
    if buffer.len() < total_length {
        return 0;
    }
    let tl16: u16 = (total_length % 65536) as u16;
    fill_header(buffer, tl16, protocol, our_ip, dest_ip);
    let ghost h0 = header_bytes(tl16, protocol, our_ip@, dest_ip@, 0);
    let checksum = calculate_checksum(&buffer[0..20]);
    let (c_hi, c_lo) = write_be16(checksum);
    let ghost before = buffer@;
    buffer[10] = c_hi;
    buffer[11] = c_lo;
    proof {
        assert forall|j: int| 0 <= j < 20 && j != 10 && j != 11 implies buffer@[j] == h0[j] by {
            assert(buffer@[j] == before[j]);
            assert(before.subrange(0, 20)[j] == before[j]);
        }
        assert(seq![c_hi, c_lo][0] == c_hi && seq![c_hi, c_lo][1] == c_lo);
        assert(be16_bytes(checksum)[0] == c_hi && be16_bytes(checksum)[1] == c_lo);
        assert(header_bytes(tl16, protocol, our_ip@, dest_ip@, checksum) =~= h0.update(10, c_hi).update(11, c_lo));
        assert(buffer@.subrange(0, 20) =~= h0.update(10, c_hi).update(11, c_lo));
    }
    let ghost mid = buffer@;
    let mut i: usize = 0;
    while i < payload.len()
        invariant
            i <= payload@.len(),
            payload@.len() + 20 <= usize::MAX,
            buffer@.len() == old(buffer)@.len(),
            buffer@.len() >= 20 + payload@.len(),
            mid.len() == buffer@.len(),
            forall|j: int| 0 <= j < 20 ==> buffer@[j] == mid[j],
            forall|j: int| 20 <= j < 20 + i ==> buffer@[j] == payload@[j - 20],
            forall|j: int| 20 + i <= j < buffer@.len() ==> buffer@[j] == mid[j],
            forall|j: int| 20 <= j < buffer@.len() ==> mid[j] == old(buffer)@[j],
        decreases payload@.len() - i,
    {
        buffer[20 + i] = payload[i];
        i = i + 1;
    }
    assert(buffer@.subrange(0, 20) =~= mid.subrange(0, 20));
    assert(buffer@.subrange(20, total_length as int) =~= payload@);
    assert forall|j: int| total_length <= j < buffer@.len() implies buffer@[j] == old(buffer)@[j] by {
        assert(buffer@[j] == mid[j]);
        assert(mid[j] == old(buffer)@[j]);
    }
    assert(buffer@.subrange(total_length as int, buffer@.len() as int)
        =~= old(buffer)@.subrange(total_length as int, old(buffer)@.len() as int));
    total_length
}

/// Whether two IPv4 addresses are equal.
pub fn ip_equals(a: &[u8; 4], b: &[u8; 4]) -> (r: bool)
    ensures
        r == (a@ == b@),
{
    let r = a[0] == b[0] && a[1] == b[1] && a[2] == b[2] && a[3] == b[3];
    if r {
        assert(a@ =~= b@);
    } else {
        assert(a@ != b@) by {
            if a@ == b@ {
                assert(a@[0] == b@[0] && a@[1] == b@[1] && a@[2] == b@[2] && a@[3] == b@[3]);
            }
        }
    }
    r
}

/// A header written by `build_packet` passes the checksum test: its checksum is 0.
pub proof fn law_built_header_verifies(total_length: u16, protocol: u8, src: Seq<u8>, dst: Seq<u8>)
    requires
        src.len() == 4,
        dst.len() == 4,
    ensures
        checksum_spec(checked_header(total_length, protocol, src, dst)) == 0,
{
    let h0 = header_bytes(total_length, protocol, src, dst, 0);
    let c = checksum_spec(h0);
    law_checksum_verifies(h0, 10);
    assert(h0.update(10, (c / 256) as u8).update(11, (c % 256) as u8)
        =~= header_bytes(total_length, protocol, src, dst, c));
}


/// Reading back what `build_packet` writes gives what went in: version 4, a 20-byte
/// header (IHL 5), the total length, TTL 64, the protocol, both addresses and the
/// payload, and a header whose checksum is 0.
pub proof fn law_parse_after_build(protocol: u8, src: Seq<u8>, dst: Seq<u8>, payload: Seq<u8>)
    requires
        src.len() == 4,
        dst.len() == 4,
        20 + payload.len() <= 65535,
    ensures
        ({
            let n = 20 + payload.len();
            let d = checked_header(n as u16, protocol, src, dst) + payload;
            &&& d.len() == n
            &&& d[0] / 16 == 4
            &&& d[0] % 16 == 5
            &&& be16(d[2], d[3]) == n
            &&& d[8] == 64
            &&& d[9] == protocol
            &&& d.subrange(12, 16) == src
            &&& d.subrange(16, 20) == dst
            &&& d.subrange(20, d.len() as int) == payload
            &&& checksum_spec(d.subrange(0, 20)) == 0
        }),
{
    let n = 20 + payload.len();
    let t = n as u16;
    let h = checked_header(t, protocol, src, dst);
    let d = h + payload;
    law_built_header_verifies(t, protocol, src, dst);
    assert(h.len() == 20);
    assert(d.subrange(0, 20) =~= h);
    assert(d.subrange(12, 16) =~= src);
    assert(d.subrange(16, 20) =~= dst);
    assert(d.subrange(20, d.len() as int) =~= payload);
    assert(d[2] == (t / 256) as u8 && d[3] == (t % 256) as u8);
    assert(((t / 256) as u8) * 256 + ((t % 256) as u8) == t);
    assert(d[0] == 0x45u8);
}

} // verus!
