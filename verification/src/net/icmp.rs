//! ICMP: echo request and reply.

use vstd::prelude::*;
use vstd::string::StringSliceAdditionalSpecFns;
use crate::net::ethernet::{be16, be16_bytes, read_be16, write_be16};
use crate::net::ipv4::{self, Ipv4Packet, checksum_spec, PROTOCOL_ICMP};
use crate::net::{NetStack, route_packet, routed_frame, ipv4_bytes};
use crate::util::{hex_bytes, write_hex_u8, push_str};

verus! {

/// An ICMP packet read out of a byte buffer.
pub struct IcmpPacket<'a> {
    pub icmp_type: u8,
    pub code: u8,
    pub checksum: u16,
    pub rest_of_header: [u8; 4],
    pub payload: &'a [u8],
}

/// Echo reply type.
pub const ICMP_ECHO_REPLY: u8 = 0;
/// Echo request type.
pub const ICMP_ECHO_REQUEST: u8 = 8;

/// The bytes of `d` from offset `k` on.
pub open spec fn bytes_from(d: Seq<u8>, k: int) -> Seq<u8> {
    d.subrange(k, d.len() as int)
}

/// The first `n` bytes of `s`.
pub open spec fn take(s: Seq<u8>, n: usize) -> Seq<u8> {
    s.subrange(0, n as int)
}

/// At most 1492 bytes from the front of `p`.
pub open spec fn reply_payload(p: Seq<u8>) -> Seq<u8> {
    if p.len() < 1492 { p } else { p.subrange(0, 1492) }
}

/// The 56 pattern bytes 8, 9, ..., 63.
pub open spec fn ping_pattern() -> Seq<u8> {
    Seq::new(56, |k: int| (k + 8) as u8)
}

/// Fill bytes 8..64 with their own offsets.
fn fill_pattern(buf: &mut [u8; 64])
    ensures
        final(buf)@.subrange(0, 8) == old(buf)@.subrange(0, 8),
        final(buf)@.subrange(8, 64) == ping_pattern(),
{
    let mut i: usize = 8;
    while i < 64
        invariant
            8 <= i <= 64,
            buf@.subrange(0, 8) == old(buf)@.subrange(0, 8),
            forall|j: int| 8 <= j < i ==> buf@[j] == j as u8,
        decreases 64 - i,
    {
        let ghost before = buf@;
        buf[i] = i as u8;
        assert(buf@.subrange(0, 8) =~= before.subrange(0, 8));
        i = i + 1;
    }
    assert(buf@.subrange(8, 64) =~= ping_pattern());
}

/// Read an ICMP packet: `None` when shorter than 8 bytes.
pub fn parse_packet(data: &[u8]) -> (r: Option<IcmpPacket>)
    ensures
        data@.len() < 8 ==> r is None,
        data@.len() >= 8 ==> (r matches Some(p) && {
            &&& p.icmp_type == data@[0]
            &&& p.code == data@[1]
            &&& p.checksum == be16(data@[2], data@[3])
            &&& p.rest_of_header@ == data@.subrange(4, 8)
            &&& p.payload@ == bytes_from(data@, 8)
        }),
{
    if data.len() < 8 {
        return None;
    }
    let rest_of_header: [u8; 4] = [data[4], data[5], data[6], data[7]];
    assert(rest_of_header@ =~= data@.subrange(4, 8));
    Some(IcmpPacket {
        icmp_type: data[0],
        code: data[1],
        checksum: read_be16(data[2], data[3]),
        rest_of_header,
        payload: &data[8..data.len()],
    })
}

/// `body` with its checksum (over the whole message, field zero) stored in bytes 2 and 3.
pub open spec fn with_checksum(body: Seq<u8>) -> Seq<u8> {
    let c = checksum_spec(body);
    body.update(2, (c / 256) as u8).update(3, (c % 256) as u8)
}

/// The echo reply message for a request: the identifier and sequence echoed, and at
/// most 1492 bytes of its payload.
pub open spec fn echo_reply_message(rest: Seq<u8>, payload: Seq<u8>) -> Seq<u8> {
    with_checksum(seq![ICMP_ECHO_REPLY, 0u8, 0u8, 0u8] + rest + reply_payload(payload))
}

/// The echo request message: identifier, sequence and the 56 bytes 8, 9, ..., 63.
pub open spec fn echo_request_message(identifier: u16, sequence: u16) -> Seq<u8> {
    with_checksum(seq![ICMP_ECHO_REQUEST, 0u8, 0u8, 0u8] + be16_bytes(identifier) + be16_bytes(sequence)
        + ping_pattern())
}

fn fill_checksum(buffer: &mut [u8], len: usize)
    requires
        4 <= len <= old(buffer)@.len(),
        len <= 131074,
        old(buffer)@[2] == 0,
        old(buffer)@[3] == 0,
    ensures
        final(buffer)@.len() == old(buffer)@.len(),
        final(buffer)@.subrange(0, len as int) == with_checksum(old(buffer)@.subrange(0, len as int)),
{
    let ghost body = buffer@.subrange(0, len as int);
    let c = ipv4::calculate_checksum(&buffer[0..len]);
    let (hi, lo) = write_be16(c);
    buffer[2] = hi;
    buffer[3] = lo;
    assert(seq![hi, lo][0] == hi && seq![hi, lo][1] == lo);
    assert(buffer@.subrange(0, len as int) =~= with_checksum(body));
}

/// The frame `send_echo_reply` sends.
pub open spec fn echo_reply_frame(stack: NetStack, dest_ip: Seq<u8>, rest: Seq<u8>, payload: Seq<u8>) -> Seq<u8> {
    routed_frame(stack, dest_ip, ipv4_bytes(stack.config.ip_addr@, dest_ip, PROTOCOL_ICMP, echo_reply_message(rest, payload)))
}

/// The frame that answers an echo request from `dest_ip`: the reply, or an ARP request
/// when the sender's MAC address is not cached.
pub fn send_echo_reply(stack: &NetStack, dest_ip: [u8; 4], rest_of_header: [u8; 4], payload: &[u8]) -> (frame: Vec<u8>)
    ensures
        frame@ == echo_reply_frame(*stack, dest_ip@, rest_of_header@, payload@),
{
    let mut msg: [u8; 1500] = [0u8; 1500];
    msg[0] = ICMP_ECHO_REPLY;
    msg[1] = 0;
    msg[2] = 0;
    msg[3] = 0;
    msg[4] = rest_of_header[0];
    msg[5] = rest_of_header[1];
    msg[6] = rest_of_header[2];
    msg[7] = rest_of_header[3];
    let payload_len = if payload.len() < 1492 { payload.len() } else { 1492 };
    assert(reply_payload(payload@) =~= take(payload@, payload_len));
    let mut i: usize = 0;
    while i < payload_len
        invariant
            payload_len <= payload@.len(),
            payload_len <= 1492,
            i <= payload_len,
            msg@.len() == 1500,
            msg@.subrange(0, 8) == seq![ICMP_ECHO_REPLY, 0u8, 0u8, 0u8] + rest_of_header@,
            forall|j: int| 8 <= j < 8 + i ==> msg@[j] == reply_payload(payload@)[j - 8],
            reply_payload(payload@).len() == payload_len,
            forall|j: int| 0 <= j < payload_len ==> reply_payload(payload@)[j] == payload@[j],
        decreases payload_len - i,
    {
        let ghost before = msg@;
        msg[8 + i] = payload[i];
        assert(msg@.subrange(0, 8) =~= before.subrange(0, 8));
        i = i + 1;
    }
    let msg_len = 8 + payload_len;
    assert(take(msg@, msg_len)
        =~= seq![ICMP_ECHO_REPLY, 0u8, 0u8, 0u8] + rest_of_header@ + reply_payload(payload@)) by {
        assert(msg@.subrange(0, 8) =~= seq![ICMP_ECHO_REPLY, 0u8, 0u8, 0u8] + rest_of_header@);
        assert(forall|j: int| 0 <= j < 8 ==> msg@[j] == msg@.subrange(0, 8)[j]);
    }
    assert(msg@[2] == msg@.subrange(0, 8)[2] && msg@[3] == msg@.subrange(0, 8)[3]);
    fill_checksum(&mut msg, msg_len);
    route_packet(stack, dest_ip, PROTOCOL_ICMP, &msg.as_slice()[0..msg_len])
}

/// The frame `send_echo_request` sends.
pub open spec fn echo_request_frame(stack: NetStack, dest_ip: Seq<u8>, identifier: u16, sequence: u16) -> Seq<u8> {
    routed_frame(stack, dest_ip, ipv4_bytes(stack.config.ip_addr@, dest_ip, PROTOCOL_ICMP, echo_request_message(identifier, sequence)))
}

/// The frame that pings `dest_ip`: the echo request, or an ARP request when its MAC
/// address is not cached.
pub fn send_echo_request(stack: &NetStack, dest_ip: [u8; 4], identifier: u16, sequence: u16) -> (frame: Vec<u8>)
    ensures
        frame@ == echo_request_frame(*stack, dest_ip@, identifier, sequence),
{
    let mut msg: [u8; 64] = [0u8; 64];
    msg[0] = ICMP_ECHO_REQUEST;
    msg[1] = 0;
    msg[2] = 0;
    msg[3] = 0;
    let (i0, i1) = write_be16(identifier);
    let (s0, s1) = write_be16(sequence);
    msg[4] = i0;
    msg[5] = i1;
    msg[6] = s0;
    msg[7] = s1;
    assert(msg@.subrange(0, 8) =~= seq![ICMP_ECHO_REQUEST, 0u8, 0u8, 0u8, i0, i1, s0, s1]);
    fill_pattern(&mut msg);
    proof {
        assert(seq![i0, i1] == be16_bytes(identifier));
        assert(seq![s0, s1] == be16_bytes(sequence));
        assert(seq![i0, i1][0] == i0 && seq![i0, i1][1] == i1);
        assert(seq![s0, s1][0] == s0 && seq![s0, s1][1] == s1);
        assert(forall|j: int| 0 <= j < 8 ==> msg@[j] == msg@.subrange(0, 8)[j]);
        assert(forall|j: int| 8 <= j < 64 ==> msg@[j] == msg@.subrange(8, 64)[j - 8]);
        assert(msg@.subrange(0, 64) =~= seq![ICMP_ECHO_REQUEST, 0u8, 0u8, 0u8] + be16_bytes(identifier)
            + be16_bytes(sequence) + ping_pattern());
    }
    fill_checksum(&mut msg, 64);
    route_packet(stack, dest_ip, PROTOCOL_ICMP, &msg.as_slice()[0..64])
}

/// An IPv4 address as four two-digit hex numbers joined by dots.
pub open spec fn ip_hex(ip: Seq<u8>) -> Seq<u8> {
    hex_bytes(ip[0] as u64, 2) + seq![46u8] + hex_bytes(ip[1] as u64, 2) + seq![46u8]
        + hex_bytes(ip[2] as u64, 2) + seq![46u8] + hex_bytes(ip[3] as u64, 2)
}

/// Write an IPv4 address as `ip_hex` does.
pub fn write_ip_hex(ip: [u8; 4], out: &mut Vec<u8>)
    ensures
        final(out)@ == old(out)@ + ip_hex(ip@),
{
    write_hex_u8(ip[0], out);
    out.push(46);
    write_hex_u8(ip[1], out);
    out.push(46);
    write_hex_u8(ip[2], out);
    out.push(46);
    write_hex_u8(ip[3], out);
    assert(out@ =~= old(out)@ + ip_hex(ip@));
}

/// What `handle_packet` logs for an ICMP message from `src`.
pub open spec fn icmp_log(icmp_type: u8, src: Seq<u8>) -> Seq<u8> {
    if icmp_type == ICMP_ECHO_REQUEST {
        "ICMP: Received ping request from ".spec_bytes() + ip_hex(src) + "\n".spec_bytes()
    } else if icmp_type == ICMP_ECHO_REPLY {
        "ICMP: Received ping reply from ".spec_bytes() + ip_hex(src) + "\n".spec_bytes()
    } else {
        seq![]
    }
}

/// Handle an ICMP message: log echo requests and replies to `serial`, and answer an echo
/// request (the returned frame is for the caller to send).
pub fn handle_packet(stack: &NetStack, ip_packet: &Ipv4Packet, icmp_packet: &IcmpPacket, serial: &mut Vec<u8>) -> (r: Option<Vec<u8>>)
    ensures
        final(serial)@ == old(serial)@ + icmp_log(icmp_packet.icmp_type, ip_packet.source_ip@),
        icmp_packet.icmp_type == ICMP_ECHO_REQUEST ==> (r matches Some(f) && f@ == echo_reply_frame(*stack,
            ip_packet.source_ip@, icmp_packet.rest_of_header@, icmp_packet.payload@)),
        icmp_packet.icmp_type != ICMP_ECHO_REQUEST ==> r is None,
{
    if icmp_packet.icmp_type == ICMP_ECHO_REQUEST {
        push_str(serial, "ICMP: Received ping request from ");
        write_ip_hex(ip_packet.source_ip, serial);
        push_str(serial, "\n");
        Some(send_echo_reply(stack, ip_packet.source_ip, icmp_packet.rest_of_header, icmp_packet.payload))
    } else if icmp_packet.icmp_type == ICMP_ECHO_REPLY {
        push_str(serial, "ICMP: Received ping reply from ");
        write_ip_hex(ip_packet.source_ip, serial);
        push_str(serial, "\n");
        None
    } else {
        assert(old(serial)@ + seq![] =~= old(serial)@);
        None
    }
}

/// An echo request message passes the checksum test.
pub proof fn law_echo_request_verifies(identifier: u16, sequence: u16)
    ensures
        checksum_spec(echo_request_message(identifier, sequence)) == 0,
{
    let body = seq![ICMP_ECHO_REQUEST, 0u8, 0u8, 0u8] + be16_bytes(identifier) + be16_bytes(sequence)
        + ping_pattern();
    ipv4::law_checksum_verifies(body, 2);
}


/// An echo reply answers the request it is for: type 0, code 0, the request's
/// identifier and sequence (`rest`) as they came, the request's payload whole when it
/// is at most 1492 bytes (its first 1492 bytes otherwise), so the message is 8 bytes
/// longer than what it echoes; and its checksum verifies.
pub proof fn law_echo_reply_echoes(rest: Seq<u8>, payload: Seq<u8>)
    requires
        rest.len() == 4,
    ensures
        ({
            let m = echo_reply_message(rest, payload);
            let kept = if payload.len() <= 1492 { payload.len() } else { 1492 };
            &&& m.len() == 8 + kept
            &&& m[0] == 0 && m[1] == 0
            &&& m.subrange(4, 8) == rest
            &&& m.subrange(8, m.len() as int) == payload.subrange(0, kept as int)
            &&& payload.len() <= 1492 ==> m.subrange(8, m.len() as int) == payload
            &&& checksum_spec(m) == 0
        }),
{
    let body = seq![ICMP_ECHO_REPLY, 0u8, 0u8, 0u8] + rest + reply_payload(payload);
    let m = echo_reply_message(rest, payload);
    let kept = if payload.len() <= 1492 { payload.len() } else { 1492 };
    assert(reply_payload(payload) =~= payload.subrange(0, kept as int));
    ipv4::law_checksum_verifies(body, 2);
    assert(m.subrange(4, 8) =~= rest);
    assert(m.subrange(8, m.len() as int) =~= payload.subrange(0, kept as int));
    if payload.len() <= 1492 {
        assert(payload.subrange(0, kept as int) =~= payload);
    }
}

} // verus!
