use m5ros::net::arp::{self, ArpCache};
use m5ros::net::ethernet::{build_frame, parse_frame, ETHERTYPE_ARP, ETHERTYPE_IPV4};
use m5ros::net::ipv4::{build_packet, calculate_checksum, parse_packet, PROTOCOL_ICMP};
use m5ros::net::{configure, process_packet, process_packets, NetConfig, NetStack};

const OUR_MAC: [u8; 6] = [0x52, 0x54, 0, 0x12, 0x34, 0x56];
const PEER_MAC: [u8; 6] = [0xAA, 0xBB, 0xCC, 0xDD, 0xEE, 0x01];

fn stack() -> NetStack {
    let mut config = NetConfig::new();
    configure(&mut config, [10, 0, 2, 15], [255, 255, 255, 0], [10, 0, 2, 2]);
    NetStack { config, mac: OUR_MAC, arp_cache: ArpCache::new() }
}

fn frame(dest: [u8; 6], src: [u8; 6], ethertype: u16, payload: &[u8]) -> Vec<u8> {
    let mut buf = vec![0u8; 14 + payload.len()];
    let n = build_frame(dest, src, ethertype, payload, &mut buf);
    buf.truncate(n);
    buf
}

fn arp_request(target: [u8; 4]) -> Vec<u8> {
    let mut p = vec![0, 1, 8, 0, 6, 4, 0, 1];
    p.extend_from_slice(&PEER_MAC);
    p.extend_from_slice(&[10, 0, 2, 2]);
    p.extend_from_slice(&[0; 6]);
    p.extend_from_slice(&target);
    frame([0xFF; 6], PEER_MAC, ETHERTYPE_ARP, &p)
}

fn echo_request() -> Vec<u8> {
    let mut icmp = vec![8u8, 0, 0, 0, 0x12, 0x34, 0x00, 0x01, b'h', b'i'];
    let c = calculate_checksum(&icmp);
    icmp[2] = (c >> 8) as u8;
    icmp[3] = (c & 0xFF) as u8;
    let mut ip = vec![0u8; 20 + icmp.len()];
    let n = build_packet([10, 0, 2, 2], [10, 0, 2, 15], PROTOCOL_ICMP, &icmp, &mut ip);
    ip.truncate(n);
    frame(OUR_MAC, PEER_MAC, ETHERTYPE_IPV4, &ip)
}

#[test]
fn frame_roundtrip() {
    let f = frame(PEER_MAC, OUR_MAC, 0x0800, &[1, 2, 3]);
    let p = parse_frame(&f).unwrap();
    assert_eq!(p.dest_mac, PEER_MAC);
    assert_eq!(p.src_mac, OUR_MAC);
    assert_eq!(p.ethertype, 0x0800);
    assert_eq!(p.payload, &[1, 2, 3]);
    assert!(parse_frame(&[0u8; 13]).is_none());
}

#[test]
fn ipv4_checksum_and_parse() {
    let mut ip = vec![0u8; 24];
    let n = build_packet([10, 0, 2, 15], [8, 8, 8, 8], 17, &[9, 9, 9, 9], &mut ip);
    assert_eq!(n, 24);
    assert_eq!(calculate_checksum(&ip[0..20]), 0);
    let p = parse_packet(&ip).unwrap();
    assert_eq!(p.protocol, 17);
    assert_eq!(p.source_ip, [10, 0, 2, 15]);
    assert_eq!(p.payload, &[9, 9, 9, 9]);
    assert_eq!((p.version, p.ihl, p.ttl, p.total_length), (4, 5, 64, 24));
    assert_eq!(p.dest_ip, [8, 8, 8, 8]);
    assert_eq!(calculate_checksum(&[0x45, 0x00, 0x00, 0x1c]), !(0x4500u16 + 0x001c));
}

#[test]
fn arp_request_for_us_is_answered_and_cached() {
    let mut s = stack();
    let mut log = Vec::new();
    let replies = process_packet(&mut s, &arp_request([10, 0, 2, 15]), &mut log);
    assert_eq!(replies.len(), 1);
    let r = parse_frame(&replies[0]).unwrap();
    assert_eq!(r.dest_mac, PEER_MAC);
    assert_eq!(r.ethertype, ETHERTYPE_ARP);
    let a = arp::parse_packet(r.payload).unwrap();
    assert_eq!(a.opcode, 2);
    assert_eq!(a.sender_mac, OUR_MAC);
    assert_eq!(a.sender_ip, [10, 0, 2, 15]);
    assert_eq!(arp::lookup_mac(&s.arp_cache, [10, 0, 2, 2]), Some(PEER_MAC));
    let none = process_packet(&mut s, &arp_request([10, 0, 2, 99]), &mut log);
    assert!(none.is_empty());
}

#[test]
fn ping_is_logged_and_answered() {
    let mut s = stack();
    let mut log = Vec::new();
    let packets = vec![arp_request([10, 0, 2, 15]), echo_request()];
    let out = process_packets(&mut s, &packets, &mut log);
    assert_eq!(out.len(), 2);
    assert_eq!(String::from_utf8(log).unwrap(), "ICMP: Received ping request from 0A.00.02.02\n");
    let reply = parse_frame(&out[1]).unwrap();
    assert_eq!(reply.dest_mac, PEER_MAC);
    let ip = parse_packet(reply.payload).unwrap();
    assert_eq!(ip.dest_ip, [10, 0, 2, 2]);
    assert_eq!(ip.payload[0], 0);
    assert_eq!(&ip.payload[4..10], &[0x12, 0x34, 0x00, 0x01, b'h', b'i']);
    assert_eq!(calculate_checksum(ip.payload), 0);
}

#[test]
fn ping_without_cached_peer_asks_arp() {
    let mut s = stack();
    let mut log = Vec::new();
    let out = process_packet(&mut s, &echo_request(), &mut log);
    assert_eq!(out.len(), 1);
    let f = parse_frame(&out[0]).unwrap();
    assert_eq!(f.ethertype, ETHERTYPE_ARP);
    assert_eq!(f.dest_mac, [0xFF; 6]);
}
