//! The protocol layers of a captured frame, as plain values.
//!
//! Slicing a frame into its link, network and transport headers is done by
//! etherparse; this module turns what it finds into the library's own layer
//! types, which the classifier then reads.

use etherparse::{LinkSlice, NetSlice, SlicedPacket, TransportSlice};
use vstd::prelude::*;

verus! {

/// The link layer of a frame.
pub enum LinkLayer {
    Ethernet2 { source: [u8; 6], destination: [u8; 6] },
    Other,
    Absent,
}

/// The network layer of a frame.
pub enum NetLayer {
    Ipv4 { source: [u8; 4], destination: [u8; 4], ttl: u8, identification: u16 },
    /// Addresses as the standard textual form of an IPv6 address.
    Ipv6 { source_addr: String, destination_addr: String, hop_limit: u8 },
    /// Hardware addresses of the sender and the target.
    Arp { sender: Vec<u8>, target: Vec<u8> },
    Absent,
}

/// The transport layer of a frame.
pub enum TransportLayer {
    Tcp {
        source_port: u16,
        destination_port: u16,
        window_size: u16,
        sequence_number: u32,
        payload: Vec<u8>,
    },
    Udp { source_port: u16, destination_port: u16, length: u16, payload: Vec<u8> },
    Icmpv4,
    Icmpv6,
    Igmp,
    Absent,
}

/// The layers of one frame, outermost first.
pub struct FrameLayers {
    pub link: LinkLayer,
    pub net: NetLayer,
    pub transport: TransportLayer,
}

/// Two network layers with the same variant and the same contents.
pub open spec fn same_net(a: NetLayer, b: NetLayer) -> bool {
    match (a, b) {
        (
            NetLayer::Ipv4 { source: s1, destination: d1, ttl: t1, identification: i1 },
            NetLayer::Ipv4 { source: s2, destination: d2, ttl: t2, identification: i2 },
        ) => s1 == s2 && d1 == d2 && t1 == t2 && i1 == i2,
        (
            NetLayer::Ipv6 { source_addr: s1, destination_addr: d1, hop_limit: h1 },
            NetLayer::Ipv6 { source_addr: s2, destination_addr: d2, hop_limit: h2 },
        ) => s1@ == s2@ && d1@ == d2@ && h1 == h2,
        (NetLayer::Arp { sender: s1, target: t1 }, NetLayer::Arp { sender: s2, target: t2 }) =>
            s1@ == s2@ && t1@ == t2@,
        (NetLayer::Absent, NetLayer::Absent) => true,
        _ => false,
    }
}

/// Two transport layers with the same variant and the same contents.
pub open spec fn same_transport(a: TransportLayer, b: TransportLayer) -> bool {
    match (a, b) {
        (
            TransportLayer::Tcp {
                source_port: s1,
                destination_port: d1,
                window_size: w1,
                sequence_number: q1,
                payload: p1,
            },
            TransportLayer::Tcp {
                source_port: s2,
                destination_port: d2,
                window_size: w2,
                sequence_number: q2,
                payload: p2,
            },
        ) => s1 == s2 && d1 == d2 && w1 == w2 && q1 == q2 && p1@ == p2@,
        (
            TransportLayer::Udp { source_port: s1, destination_port: d1, length: l1, payload: p1 },
            TransportLayer::Udp { source_port: s2, destination_port: d2, length: l2, payload: p2 },
        ) => s1 == s2 && d1 == d2 && l1 == l2 && p1@ == p2@,
        (TransportLayer::Icmpv4, TransportLayer::Icmpv4) => true,
        (TransportLayer::Icmpv6, TransportLayer::Icmpv6) => true,
        (TransportLayer::Igmp, TransportLayer::Igmp) => true,
        (TransportLayer::Absent, TransportLayer::Absent) => true,
        _ => false,
    }
}

/// Two frames whose layers have the same variants and the same contents.
pub open spec fn same_layers(a: FrameLayers, b: FrameLayers) -> bool {
    a.link == b.link && same_net(a.net, b.net) && same_transport(a.transport, b.transport)
}

/// What `SlicedPacket::from_ethernet` finds in a frame that starts with an
/// Ethernet II header; `None` where it reports an error. IPv6 addresses are
/// held in the text that `Ipv6Addr`'s `Display` gives them.
pub uninterp spec fn sliced_ethernet(data: Seq<u8>) -> Option<FrameLayers>;

/// What `SlicedPacket::from_linux_sll` finds in a frame that starts with a
/// Linux cooked-capture header; `None` where it reports an error.
pub uninterp spec fn sliced_linux_sll(data: Seq<u8>) -> Option<FrameLayers>;

/// Relies on `SlicedPacket::from_ethernet` and the Ethernet II slice's
/// `source` and `destination`: the link layer that it finds. It fails on a
/// frame shorter than the 14 bytes of an Ethernet II header.
#[verifier::external_body]
fn ethernet_link(data: &[u8]) -> (r: Option<LinkLayer>)
    ensures
        r is Some <==> sliced_ethernet(data@) is Some,
        r is Some ==> r->0 == sliced_ethernet(data@)->0.link,
        data@.len() < 14 ==> r is None,
{
    let p = SlicedPacket::from_ethernet(data).ok()?;
    Some(match p.link {
        Some(LinkSlice::Ethernet2(e)) => LinkLayer::Ethernet2 { source: e.source(), destination: e.destination() },
        Some(_) => LinkLayer::Other,
        None => LinkLayer::Absent,
    })
}

/// Relies on `SlicedPacket::from_ethernet` and the header accessors of its
/// IPv4, IPv6 and ARP slices: the network layer that it finds, with IPv6
/// addresses in the text that `Ipv6Addr`'s `Display` gives.
#[verifier::external_body]
fn ethernet_net(data: &[u8]) -> (r: Option<NetLayer>)
    ensures
        r is Some <==> sliced_ethernet(data@) is Some,
        r is Some ==> same_net(r->0, sliced_ethernet(data@)->0.net),
{
    let p = SlicedPacket::from_ethernet(data).ok()?;
    Some(match p.net {
        Some(NetSlice::Ipv4(v)) => NetLayer::Ipv4 { source: v.header().source(), destination: v.header().destination(), ttl: v.header().ttl(), identification: v.header().identification() },
        Some(NetSlice::Ipv6(v)) => NetLayer::Ipv6 { source_addr: v.header().source_addr().to_string(), destination_addr: v.header().destination_addr().to_string(), hop_limit: v.header().hop_limit() },
        Some(NetSlice::Arp(a)) => NetLayer::Arp { sender: a.sender_hw_addr().to_vec(), target: a.target_hw_addr().to_vec() },
        None => NetLayer::Absent,
    })
}

/// Relies on `SlicedPacket::from_ethernet` and the accessors of its TCP and
/// UDP slices: the transport layer that it finds.
#[verifier::external_body]
fn ethernet_transport(data: &[u8]) -> (r: Option<TransportLayer>)
    ensures
        r is Some <==> sliced_ethernet(data@) is Some,
        r is Some ==> same_transport(r->0, sliced_ethernet(data@)->0.transport),
{
    let p = SlicedPacket::from_ethernet(data).ok()?;
    Some(match p.transport {
        Some(TransportSlice::Tcp(t)) => TransportLayer::Tcp { source_port: t.source_port(), destination_port: t.destination_port(), window_size: t.window_size(), sequence_number: t.sequence_number(), payload: t.payload().to_vec() },
        Some(TransportSlice::Udp(u)) => TransportLayer::Udp { source_port: u.source_port(), destination_port: u.destination_port(), length: u.length(), payload: u.payload().to_vec() },
        Some(TransportSlice::Icmpv4(_)) => TransportLayer::Icmpv4,
        Some(TransportSlice::Icmpv6(_)) => TransportLayer::Icmpv6,
        Some(TransportSlice::Igmp(_)) => TransportLayer::Igmp,
        None => TransportLayer::Absent,
    })
}

/// Relies on `SlicedPacket::from_linux_sll` and the accessors of its TCP and
/// UDP slices: the transport layer that it finds.
#[verifier::external_body]
fn linux_sll_transport(data: &[u8]) -> (r: Option<TransportLayer>)
    ensures
        r is Some <==> sliced_linux_sll(data@) is Some,
        r is Some ==> same_transport(r->0, sliced_linux_sll(data@)->0.transport),
{
    let p = SlicedPacket::from_linux_sll(data).ok()?;
    Some(match p.transport {
        Some(TransportSlice::Tcp(t)) => TransportLayer::Tcp { source_port: t.source_port(), destination_port: t.destination_port(), window_size: t.window_size(), sequence_number: t.sequence_number(), payload: t.payload().to_vec() },
        Some(TransportSlice::Udp(u)) => TransportLayer::Udp { source_port: u.source_port(), destination_port: u.destination_port(), length: u.length(), payload: u.payload().to_vec() },
        Some(TransportSlice::Icmpv4(_)) => TransportLayer::Icmpv4,
        Some(TransportSlice::Icmpv6(_)) => TransportLayer::Icmpv6,
        Some(TransportSlice::Igmp(_)) => TransportLayer::Igmp,
        None => TransportLayer::Absent,
    })
}

/// Slices a frame that starts with an Ethernet II header into its layers;
/// `None` where the frame cannot be sliced.
pub fn decode_ethernet(data: &[u8]) -> (r: Option<FrameLayers>)
    ensures
        r is Some <==> sliced_ethernet(data@) is Some,
        r is Some ==> same_layers(r->0, sliced_ethernet(data@)->0),
        data@.len() < 14 ==> r is None,
{
    let link = match ethernet_link(data) {
        Some(l) => l,
        None => return None,
    };
    let net = match ethernet_net(data) {
        Some(n) => n,
        None => return None,
    };
    let transport = match ethernet_transport(data) {
        Some(t) => t,
        None => return None,
    };
    Some(FrameLayers { link, net, transport })
}

/// The source and destination ports of a transport layer; zero for both
/// where it has none.
pub open spec fn transport_ports(t: TransportLayer) -> (u16, u16) {
    match t {
        TransportLayer::Tcp { source_port, destination_port, .. } => (source_port, destination_port),
        TransportLayer::Udp { source_port, destination_port, .. } => (source_port, destination_port),
        _ => (0, 0),
    }
}

/// The ports of a captured frame: read as a Linux cooked capture where it
/// slices as one, else as an Ethernet II frame; zero for both where neither
/// slicing succeeds.
pub open spec fn frame_ports_of(data: Seq<u8>) -> (u16, u16) {
    match sliced_linux_sll(data) {
        Some(l) => transport_ports(l.transport),
        None => match sliced_ethernet(data) {
            Some(l) => transport_ports(l.transport),
            None => (0, 0),
        },
    }
}

fn ports_of(t: &TransportLayer, Ghost(model): Ghost<TransportLayer>) -> (r: (u16, u16))
    requires
        same_transport(*t, model),
    ensures
        r == transport_ports(model),
{
    match t {
        TransportLayer::Tcp { source_port, destination_port, .. } => (*source_port, *destination_port),
        TransportLayer::Udp { source_port, destination_port, .. } => (*source_port, *destination_port),
        _ => (0, 0),
    }
}

/// The transport ports of a captured frame, for attributing it to a process.
pub fn frame_ports(data: &[u8]) -> (r: (u16, u16))
    ensures
        r == frame_ports_of(data@),
{
    match linux_sll_transport(data) {
        Some(t) => ports_of(&t, Ghost(sliced_linux_sll(data@)->0.transport)),
        None => match ethernet_transport(data) {
            Some(t) => ports_of(&t, Ghost(sliced_ethernet(data@)->0.transport)),
            None => (0, 0),
        },
    }
}

} // verus!
