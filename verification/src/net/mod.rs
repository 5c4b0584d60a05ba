pub mod arp;
pub mod ethernet;
pub mod icmp;
pub mod ipv4;
pub mod udp;

use vstd::prelude::*;
use crate::net::arp::{ArpCache, cache_lookup, arp_request_frame};
use crate::net::ethernet::{frame_bytes, ETHERTYPE_IPV4};
use crate::net::ipv4::checked_header;
use crate::net::arp::ArpCacheEntry;
use crate::net::ethernet::be16;
use vstd::string::StringSliceAdditionalSpecFns;

verus! {

/// Network interface configuration.
#[derive(Clone, Copy)]
pub struct NetConfig {
    pub ip_addr: [u8; 4],
    pub subnet_mask: [u8; 4],
    pub gateway: [u8; 4],
    pub configured: bool,
}

/// The stack's state: the configuration, the interface's MAC address and the ARP cache.
pub struct NetStack {
    pub config: NetConfig,
    pub mac: [u8; 6],
    pub arp_cache: ArpCache,
}

impl NetConfig {
    /// The unconfigured interface: every address zero.
    pub fn new() -> (c: NetConfig)
        ensures
            c.ip_addr@ == seq![0u8, 0u8, 0u8, 0u8],
            !c.configured,
    {
        let c = NetConfig { ip_addr: [0u8; 4], subnet_mask: [0u8; 4], gateway: [0u8; 4], configured: false };
        assert(c.ip_addr@ =~= seq![0u8, 0u8, 0u8, 0u8]);
        c
    }
}

/// Set the interface's address, netmask and gateway.
pub fn configure(config: &mut NetConfig, ip: [u8; 4], netmask: [u8; 4], gateway: [u8; 4])
    ensures
        final(config).ip_addr == ip,
        final(config).subnet_mask == netmask,
        final(config).gateway == gateway,
        final(config).configured,
{
    config.ip_addr = ip;
    config.subnet_mask = netmask;
    config.gateway = gateway;
    config.configured = true;
}

/// An IPv4 packet from us to `dest_ip` as `ipv4::build_packet` writes it.
pub open spec fn ipv4_bytes(our_ip: Seq<u8>, dest_ip: Seq<u8>, protocol: u8, payload: Seq<u8>) -> Seq<u8> {
    checked_header(((20 + payload.len()) % 65536) as u16, protocol, our_ip, dest_ip) + payload
}

/// The frame that carries an IP packet to `dest_ip`: straight to its cached MAC address,
/// or, when none is cached, an ARP request for it instead.
pub open spec fn routed_frame(stack: NetStack, dest_ip: Seq<u8>, ip_packet: Seq<u8>) -> Seq<u8> {
    match cache_lookup(stack.arp_cache.entries@, dest_ip) {
        Some(mac) => frame_bytes(mac@, stack.mac@, ETHERTYPE_IPV4, ip_packet),
        None => arp_request_frame(stack.mac@, stack.config.ip_addr@, dest_ip),
    }
}

/// Wrap `transport` in an IPv4 packet to `dest_ip` and in the frame that carries it.
pub fn route_packet(stack: &NetStack, dest_ip: [u8; 4], protocol: u8, transport: &[u8]) -> (frame: Vec<u8>)
    requires
        transport@.len() <= 1500,
    ensures
        frame@ == routed_frame(*stack, dest_ip@,
            ipv4_bytes(stack.config.ip_addr@, dest_ip@, protocol, transport@)),
{
    let mut ip_buffer: [u8; 1520] = [0u8; 1520];
    let ip_len = ipv4::build_packet(stack.config.ip_addr, dest_ip, protocol, transport, &mut ip_buffer);
    let ghost ip_pkt = ipv4_bytes(stack.config.ip_addr@, dest_ip@, protocol, transport@);
    assert(ip_buffer@.subrange(0, ip_len as int) =~= ip_pkt) by {
        assert(ip_buffer@.subrange(0, 20) == ip_pkt.subrange(0, 20));
        assert(ip_buffer@.subrange(20, ip_len as int) == transport@);
    }
    match arp::lookup_mac(&stack.arp_cache, dest_ip) {
        Some(dest_mac) => {
            let mut frame_buffer: [u8; 1536] = [0u8; 1536];
            let frame_len = ethernet::build_frame(dest_mac, stack.mac, ETHERTYPE_IPV4,
                &ip_buffer.as_slice()[0..ip_len], &mut frame_buffer);
            vstd::slice::slice_to_vec(&frame_buffer.as_slice()[0..frame_len])
        },
        None => arp::send_arp_request(stack.mac, stack.config.ip_addr, dest_ip),
    }
}

} // verus!

verus! {

/// The interface's configuration.
pub fn get_config(stack: &NetStack) -> (c: &NetConfig)
    ensures
        *c == stack.config,
{
    &stack.config
}

/// Log the start of the network stack to `serial` and prepare the ARP cache.
pub fn init(stack: &mut NetStack, serial: &mut Vec<u8>)
    ensures
        final(serial)@ == old(serial)@ + "Network: Initializing stack\n".spec_bytes()
            + "Network: Stack initialized\n".spec_bytes(),
        final(stack).arp_cache.entries@ == old(stack).arp_cache.entries@,
        final(stack).config == old(stack).config,
        final(stack).mac == old(stack).mac,
{
    crate::util::push_str(serial, "Network: Initializing stack\n");
    arp::init(&mut stack.arp_cache);
    crate::util::push_str(serial, "Network: Stack initialized\n");
}

/// `post` is `pre` with `ip` recorded at `mac` in the entry `add_to_cache` picks.
pub open spec fn cache_added(pre: Seq<ArpCacheEntry>, post: Seq<ArpCacheEntry>, ip: Seq<u8>, mac: Seq<u8>) -> bool {
    let k = arp::cache_slot(pre, ip);
    &&& post.len() == pre.len()
    &&& forall|i: int| 0 <= i < pre.len() && i != k ==> post[i] == pre[i]
    &&& post[k].ip@ == ip
    &&& post[k].mac@ == mac
    &&& post[k].valid
}

/// The payload of the Ethernet frame `d`, when it carries an ARP packet.
pub open spec fn arp_payload_of(d: Seq<u8>) -> Option<Seq<u8>> {
    if d.len() >= 14 && be16(d[12], d[13]) == ethernet::ETHERTYPE_ARP && d.len() >= 14 + 28 {
        Some(icmp::bytes_from(d, 14))
    } else {
        None
    }
}

/// The ARP cache after receiving frame `d`: an ARP packet records its sender.
pub open spec fn cache_after(pre: Seq<ArpCacheEntry>, post: Seq<ArpCacheEntry>, d: Seq<u8>) -> bool {
    match arp_payload_of(d) {
        Some(p) => cache_added(pre, post, p.subrange(14, 18), p.subrange(8, 14)),
        None => post == pre,
    }
}

/// The text logged and the frames sent in answer to one received frame `d`: ARP
/// requests for our address are answered; IPv4 packets carrying ICMP or UDP are logged,
/// and echo requests answered; anything else is ignored.
pub open spec fn process_spec(pre: NetStack, d: Seq<u8>) -> (Seq<u8>, Seq<Seq<u8>>) {
    match arp_payload_of(d) {
        Some(p) => {
            match arp::arp_response(be16(p[6], p[7]), p.subrange(8, 14), p.subrange(14, 18), p.subrange(24, 28),
                pre.mac@, pre.config.ip_addr@) {
                Some(f) => (seq![], seq![f]),
                None => (seq![], seq![]),
            }
        },
        None => {
            if d.len() >= 14 && be16(d[12], d[13]) == ethernet::ETHERTYPE_IPV4 {
                let p = icmp::bytes_from(d, 14);
                if p.len() < 20 || p[0] / 16 != 4 || p.len() < (p[0] % 16) * 4 {
                    (seq![], seq![])
                } else {
                    let src = p.subrange(12, 16);
                    let t = icmp::bytes_from(p, (p[0] % 16) * 4);
                    if p[9] == ipv4::PROTOCOL_ICMP && t.len() >= 8 {
                        let log = icmp::icmp_log(t[0], src);
                        if t[0] == icmp::ICMP_ECHO_REQUEST {
                            (log, seq![icmp::echo_reply_frame(pre, src, t.subrange(4, 8), icmp::bytes_from(t, 8))])
                        } else {
                            (log, seq![])
                        }
                    } else if p[9] == ipv4::PROTOCOL_UDP && t.len() >= 8 {
                        (udp::udp_log(src, be16(t[0], t[1]), be16(t[2], t[3])), seq![])
                    } else {
                        (seq![], seq![])
                    }
                }
            } else {
                (seq![], seq![])
            }
        },
    }
}

/// Handle one received frame: update the ARP cache, log to `serial`, and return the
/// frames to send in answer.
pub fn process_packet(stack: &mut NetStack, packet: &[u8], serial: &mut Vec<u8>) -> (frames: Vec<Vec<u8>>)
    ensures
        final(stack).config == old(stack).config,
        final(stack).mac == old(stack).mac,
        cache_after(old(stack).arp_cache.entries@, final(stack).arp_cache.entries@, packet@),
        final(serial)@ == old(serial)@ + process_spec(*old(stack), packet@).0,
        frames@.len() == process_spec(*old(stack), packet@).1.len(),
        forall|i: int| 0 <= i < frames@.len() ==> #[trigger] frames@[i]@ == process_spec(*old(stack), packet@).1[i],
{
    let mut frames: Vec<Vec<u8>> = Vec::new();
    let ghost pre = *stack;
    let eth_frame = match ethernet::parse_frame(packet) {
        Some(f) => f,
        None => {
            assert(old(serial)@ + seq![] =~= old(serial)@);
            return frames;
        },
    };
    if eth_frame.ethertype == ethernet::ETHERTYPE_ARP {
        match arp::parse_packet(eth_frame.payload) {
            Some(arp_packet) => {
                let reply = arp::handle_packet(&mut stack.arp_cache, stack.mac, stack.config.ip_addr, &arp_packet);
                match reply {
                    Some(f) => { frames.push(f); },
                    None => {},
                }
            },
            None => {},
        }
        assert(old(serial)@ + seq![] =~= old(serial)@);
    } else if eth_frame.ethertype == ethernet::ETHERTYPE_IPV4 {
        match ipv4::parse_packet(eth_frame.payload) {
            Some(ip_packet) => {
                if ip_packet.protocol == ipv4::PROTOCOL_ICMP {
                    match icmp::parse_packet(ip_packet.payload) {
                        Some(msg) => {
                            let reply = icmp::handle_packet(stack, &ip_packet, &msg, serial);
                            match reply {
                                Some(f) => { frames.push(f); },
                                None => {},
                            }
                        },
                        None => { assert(old(serial)@ + seq![] =~= old(serial)@); },
                    }
                } else if ip_packet.protocol == ipv4::PROTOCOL_UDP {
                    match udp::parse_packet(ip_packet.payload) {
                        Some(udp_packet) => {
                            udp::handle_packet(&ip_packet, &udp_packet, serial);
                        },
                        None => { assert(old(serial)@ + seq![] =~= old(serial)@); },
                    }
                } else {
                    assert(old(serial)@ + seq![] =~= old(serial)@);
                }
            },
            None => { assert(old(serial)@ + seq![] =~= old(serial)@); },
        }
    } else {
        assert(old(serial)@ + seq![] =~= old(serial)@);
    }
    frames
}

/// The views of a run of byte vectors.
pub open spec fn views(v: Seq<Vec<u8>>) -> Seq<Seq<u8>> {
    v.map_values(|x: Vec<u8>| x@)
}

/// `states` are the stacks a run of received frames passes through: each frame updates
/// the ARP cache as `process_packet` does; the configuration and address stay.
pub open spec fn run_states(states: Seq<NetStack>, packets: Seq<Seq<u8>>) -> bool {
    &&& states.len() == packets.len() + 1
    &&& forall|i: int| 0 <= i < packets.len() ==> {
        &&& (#[trigger] states[i + 1]).config == states[0].config
        &&& states[i + 1].mac == states[0].mac
        &&& cache_after(states[i].arp_cache.entries@, states[i + 1].arp_cache.entries@, packets[i])
    }
}

/// What the first `n` frames of a run log.
pub open spec fn run_log(states: Seq<NetStack>, packets: Seq<Seq<u8>>, n: int) -> Seq<u8>
    decreases n,
{
    if n <= 0 { Seq::empty() } else { run_log(states, packets, n - 1) + process_spec(states[n - 1], packets[n - 1]).0 }
}

/// The frames sent in answer to the first `n` frames of a run, in order.
pub open spec fn run_replies(states: Seq<NetStack>, packets: Seq<Seq<u8>>, n: int) -> Seq<Seq<u8>>
    decreases n,
{
    if n <= 0 { Seq::empty() } else { run_replies(states, packets, n - 1) + process_spec(states[n - 1], packets[n - 1]).1 }
}

/// Handle received frames in order, as `process_packet` does each: the log goes to
/// `serial`, and the frames to send in answer are returned in order.
pub fn process_packets(stack: &mut NetStack, packets: &Vec<Vec<u8>>, serial: &mut Vec<u8>) -> (frames: Vec<Vec<u8>>)
    ensures
        exists|states: Seq<NetStack>| {
            &&& run_states(states, views(packets@))
            &&& states[0] == *old(stack)
            &&& states[packets@.len() as int] == *final(stack)
            &&& final(serial)@ == old(serial)@ + run_log(states, views(packets@), packets@.len() as int)
            &&& views(frames@) == run_replies(states, views(packets@), packets@.len() as int)
        },
{
    let mut frames: Vec<Vec<u8>> = Vec::new();
    let ghost pk = views(packets@);
    let ghost mut states: Seq<NetStack> = seq![*stack];
    let mut i: usize = 0;
    assert(views(frames@) =~= Seq::<Seq<u8>>::empty());
    assert(old(serial)@ + Seq::<u8>::empty() =~= old(serial)@);
    while i < packets.len()
        invariant
            pk == views(packets@),
            i <= packets@.len(),
            states.len() == i + 1,
            states[0] == *old(stack),
            states[i as int] == *stack,
            forall|k: int| 0 <= k < i ==> {
                &&& (#[trigger] states[k + 1]).config == states[0].config
                &&& states[k + 1].mac == states[0].mac
                &&& cache_after(states[k].arp_cache.entries@, states[k + 1].arp_cache.entries@, pk[k])
            },
            serial@ == old(serial)@ + run_log(states, pk, i as int),
            views(frames@) == run_replies(states, pk, i as int),
        decreases packets@.len() - i,
    {
        let ghost before = states;
        let out = process_packet(stack, packets[i].as_slice(), serial);
        proof {
            states = states.push(*stack);
            assert(pk[i as int] == packets@[i as int]@);
            assert(run_log(states, pk, i as int) == run_log(before, pk, i as int)) by {
                lemma_run_prefix(before, states, pk, i as int);
            }
            assert(run_replies(states, pk, i as int) == run_replies(before, pk, i as int)) by {
                lemma_run_prefix(before, states, pk, i as int);
            }
        }
        let mut j: usize = 0;
        let ghost f0 = views(frames@);
        while j < out.len()
            invariant
                j <= out@.len(),
                views(frames@) == f0 + views(out@).take(j as int),
            decreases out@.len() - j,
        {
            let v = vstd::slice::slice_to_vec(out[j].as_slice());
            assert(v@ == out@[j as int]@);
            let ghost fr = frames@;
            frames.push(v);
            proof {
                assert(views(frames@) =~= views(fr).push(out@[j as int]@));
                assert(views(out@).take(j + 1) =~= views(out@).take(j as int).push(out@[j as int]@));
                assert(views(frames@) =~= f0 + views(out@).take(j + 1));
            }
            j = j + 1;
        }
        proof {
            assert(states[0] == before[0]);
            assert(before[i as int].config == before[0].config) by {
                if i > 0 {
                    assert(before[(i - 1) + 1].config == before[0].config);
                }
            }
            assert forall|k: int| 0 <= k < i + 1 implies {
                &&& (#[trigger] states[k + 1]).config == states[0].config
                &&& states[k + 1].mac == states[0].mac
                &&& cache_after(states[k].arp_cache.entries@, states[k + 1].arp_cache.entries@, pk[k])
            } by {
                if k < i {
                    assert(states[k + 1] == before[k + 1]);
                    assert(states[k] == before[k]);
                } else {
                    assert(states[k] == before[k]);
                    if k > 0 {
                        assert(before[(k - 1) + 1].mac == before[0].mac);
                    }
                }
            }
            assert(views(out@).take(out@.len() as int) =~= views(out@));
            assert(views(out@) =~= process_spec(before[i as int], pk[i as int]).1);
            assert(states[i as int] == before[i as int]);
        }
        i = i + 1;
    }
    assert(pk.len() == packets@.len());
    frames
}

/// The log and replies of the first `n` frames depend only on the first `n` states.
proof fn lemma_run_prefix(a: Seq<NetStack>, b: Seq<NetStack>, pk: Seq<Seq<u8>>, n: int)
    requires
        0 <= n,
        n <= a.len(),
        n <= b.len(),
        forall|k: int| 0 <= k < n ==> a[k] == b[k],
    ensures
        run_log(a, pk, n) == run_log(b, pk, n),
        run_replies(a, pk, n) == run_replies(b, pk, n),
    decreases n,
{
    if n > 0 {
        lemma_run_prefix(a, b, pk, n - 1);
    }
}

} // verus!
