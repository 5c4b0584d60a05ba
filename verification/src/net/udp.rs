//! UDP: datagram parsing, building and sending.

use vstd::prelude::*;
use vstd::string::StringSliceAdditionalSpecFns;
use crate::net::ethernet::{be16, be16_bytes, read_be16, write_be16};
use crate::net::ipv4::{Ipv4Packet, PROTOCOL_UDP};
use crate::net::icmp::{ip_hex, write_ip_hex, bytes_from};
use crate::net::{NetStack, route_packet, routed_frame, ipv4_bytes};
use crate::net::arp::{arp_request_frame, cache_lookup};
use crate::util::{hex_bytes, write_hex_u16, push_str};

verus! {

/// A UDP datagram read out of a byte buffer.
pub struct UdpPacket<'a> {
    pub source_port: u16,
    pub dest_port: u16,
    pub length: u16,
    pub checksum: u16,
    pub payload: &'a [u8],
}

/// Read a UDP datagram: `None` when shorter than 8 bytes.
pub fn parse_packet(data: &[u8]) -> (r: Option<UdpPacket>)
    ensures
        data@.len() < 8 ==> r is None,
        data@.len() >= 8 ==> (r matches Some(p) && {
            &&& p.source_port == be16(data@[0], data@[1])
            &&& p.dest_port == be16(data@[2], data@[3])
            &&& p.length == be16(data@[4], data@[5])
            &&& p.checksum == be16(data@[6], data@[7])
            &&& p.payload@ == bytes_from(data@, 8)
        }),
{
    if data.len() < 8 {
        return None;
    }
    Some(UdpPacket {
        source_port: read_be16(data[0], data[1]),
        dest_port: read_be16(data[2], data[3]),
        length: read_be16(data[4], data[5]),
        checksum: read_be16(data[6], data[7]),
        payload: &data[8..data.len()],
    })
}

/// What `handle_packet` logs for a datagram.
pub open spec fn udp_log(src: Seq<u8>, source_port: u16, dest_port: u16) -> Seq<u8> {
    "UDP: Received packet from ".spec_bytes() + ip_hex(src) + ":".spec_bytes()
        + hex_bytes(source_port as u64, 4) + " to port ".spec_bytes() + hex_bytes(dest_port as u64, 4)
        + "\n".spec_bytes()
}

/// Log a received datagram to `serial`.
pub fn handle_packet(ip_packet: &Ipv4Packet, udp_packet: &UdpPacket, serial: &mut Vec<u8>)
    ensures
        final(serial)@ == old(serial)@ + udp_log(ip_packet.source_ip@, udp_packet.source_port, udp_packet.dest_port),
{
    push_str(serial, "UDP: Received packet from ");
    write_ip_hex(ip_packet.source_ip, serial);
    push_str(serial, ":");
    write_hex_u16(udp_packet.source_port, serial);
    push_str(serial, " to port ");
    write_hex_u16(udp_packet.dest_port, serial);
    push_str(serial, "\n");
    assert(serial@ =~= old(serial)@ + udp_log(ip_packet.source_ip@, udp_packet.source_port, udp_packet.dest_port));
}

/// The datagram `build_packet` writes: ports, length (truncated to 16 bits), a zero
/// checksum and the payload.
pub open spec fn udp_bytes(source_port: u16, dest_port: u16, payload: Seq<u8>) -> Seq<u8> {
    be16_bytes(source_port) + be16_bytes(dest_port) + be16_bytes(((8 + payload.len()) % 65536) as u16)
        + seq![0u8, 0u8] + payload
}

/// Write a datagram into `buffer` and return its length, or 0 when the buffer is too
/// short.
pub fn build_packet(source_port: u16, dest_port: u16, payload: &[u8], buffer: &mut [u8]) -> (n: usize)
    requires
        payload@.len() + 8 <= usize::MAX,
    ensures
        final(buffer)@.len() == old(buffer)@.len(),
        old(buffer)@.len() < 8 + payload@.len() ==> n == 0 && final(buffer)@ == old(buffer)@,
        old(buffer)@.len() >= 8 + payload@.len() ==> {
            &&& n == 8 + payload@.len()
            &&& final(buffer)@.subrange(0, n as int) == udp_bytes(source_port, dest_port, payload@)
            &&& final(buffer)@.subrange(n as int, old(buffer)@.len() as int)
                == old(buffer)@.subrange(n as int, old(buffer)@.len() as int)
        },
{
    let length = 8 + payload.len();
    if buffer.len() < length {
        return 0;
    }
    let (a0, a1) = write_be16(source_port);
    let (b0, b1) = write_be16(dest_port);
    let (l0, l1) = write_be16((length % 65536) as u16);
    buffer[0] = a0;
    buffer[1] = a1;
    buffer[2] = b0;
    buffer[3] = b1;
    buffer[4] = l0;
    buffer[5] = l1;
    buffer[6] = 0;
    buffer[7] = 0;
    let ghost head = buffer@.subrange(0, 8);
    assert(head =~= udp_bytes(source_port, dest_port, payload@).subrange(0, 8)) by {
        assert(seq![a0, a1][0] == a0 && seq![a0, a1][1] == a1);
        assert(seq![b0, b1][0] == b0 && seq![b0, b1][1] == b1);
        assert(seq![l0, l1][0] == l0 && seq![l0, l1][1] == l1);
    }
    let mut i: usize = 0;
    while i < payload.len()
        invariant
            i <= payload@.len(),
            payload@.len() + 8 <= usize::MAX,
            length == 8 + payload@.len(),
            buffer@.len() == old(buffer)@.len(),
            buffer@.len() >= length,
            buffer@.subrange(0, 8) == head,
            forall|j: int| 8 <= j < 8 + i ==> buffer@[j] == payload@[j - 8],
            forall|j: int| 8 + i <= j < buffer@.len() ==> buffer@[j] == old(buffer)@[j],
        decreases payload@.len() - i,
    {
        let ghost before = buffer@;
        buffer[8 + i] = payload[i];
        assert(buffer@.subrange(0, 8) =~= before.subrange(0, 8));
        i = i + 1;
    }
    assert(forall|j: int| 0 <= j < 8 ==> buffer@[j] == buffer@.subrange(0, 8)[j]);
    assert(buffer@.subrange(0, length as int) =~= udp_bytes(source_port, dest_port, payload@));
    assert(buffer@.subrange(length as int, buffer@.len() as int)
        =~= old(buffer)@.subrange(length as int, old(buffer)@.len() as int));
    length
}

/// The outcome of `send_packet`: the frame to send, or an error with the ARP request
/// frame to send when the destination's MAC address is unknown.
pub open spec fn send_outcome(stack: NetStack, dest_ip: Seq<u8>, source_port: u16, dest_port: u16, payload: Seq<u8>)
    -> Result<Seq<u8>, (Option<Seq<u8>>, &'static str)>
{
    if 8 + payload.len() > 1500 {
        Err((None, "UDP packet too large"))
    } else {
        match cache_lookup(stack.arp_cache.entries@, dest_ip) {
            Some(_) => Ok(routed_frame(stack, dest_ip,
                ipv4_bytes(stack.config.ip_addr@, dest_ip, PROTOCOL_UDP, udp_bytes(source_port, dest_port, payload)))),
            None => Err((Some(arp_request_frame(stack.mac@, stack.config.ip_addr@, dest_ip)),
                "Destination MAC unknown, ARP request sent")),
        }
    }
}

/// Prepare a datagram to `dest_ip`: `Ok` with the frame to send, or an error (with the
/// ARP request to send when the destination's MAC address is not cached).
pub fn send_packet(stack: &NetStack, dest_ip: [u8; 4], source_port: u16, dest_port: u16, payload: &[u8])
    -> (r: Result<Vec<u8>, (Option<Vec<u8>>, &'static str)>)
    ensures
        match (r, send_outcome(*stack, dest_ip@, source_port, dest_port, payload@)) {
            (Ok(f), Ok(g)) => f@ == g,
            (Err((None, m)), Err((None, n))) => m == n,
            (Err((Some(f), m)), Err((Some(g), n))) => f@ == g && m == n,
            _ => false,
        },
{
    let mut udp_buffer: [u8; 1500] = [0u8; 1500];
    if payload.len() > 1492 {
        return Err((None, "UDP packet too large"));
    }
    let udp_len = build_packet(source_port, dest_port, payload, &mut udp_buffer);
    if udp_len == 0 {
        return Err((None, "UDP packet too large"));
    }
    match crate::net::arp::lookup_mac(&stack.arp_cache, dest_ip) {
        Some(_) => {
            let frame = route_packet(stack, dest_ip, PROTOCOL_UDP, &udp_buffer.as_slice()[0..udp_len]);
            Ok(frame)
        },
        None => {
            let frame = crate::net::arp::send_arp_request(stack.mac, stack.config.ip_addr, dest_ip);
            Err((Some(frame), "Destination MAC unknown, ARP request sent"))
        },
    }
}

} // verus!
