//! The frame classifier: raw bytes in, a structured, human-auditable record
//! out. The record carries a fixed-width summary line, a detail text with one
//! section per protocol layer, and a hex dump of the bytes.

use crate::frame::{
    decode_ethernet, same_layers, sliced_ethernet, FrameLayers, LinkLayer, NetLayer,
    TransportLayer,
};
use crate::hexdump::hex_dump;
pub use crate::hexdump::to_hex_string;
use crate::text::{
    dec, hex_joined, hex_list, ipv4_text, pad_right, push_dec, push_hex_joined, push_hex_list,
    push_ipv4, push_padded,
};
use vstd::prelude::*;

verus! {

/// One successfully classified frame.
pub struct PacketData {
    /// Monotonic capture instant, in nanoseconds since a fixed origin.
    pub timestamp: u64,
    /// Wall-clock capture time, for display only.
    pub time_label: String,
    /// `<source:15> -> <dest:15> | <protocol label>`.
    pub summary: String,
    /// One text section per protocol layer.
    pub full_details: String,
    /// The raw bytes, sixteen per line, with an ASCII gutter.
    pub hex_dump: String,
    /// The application that owns the local port, or `Unknown`.
    pub app_name: String,
    pub source: String,
    pub dest: String,
    pub proto_label: String,
    /// Length of the frame in bytes.
    pub length: usize,
}

/// A TCP payload that opens with an HTTP verb (`GET` or `POST`).
pub open spec fn is_http_payload(p: Seq<u8>) -> bool {
    ||| (p.len() >= 3 && p[0] == 71 && p[1] == 69 && p[2] == 84)
    ||| (p.len() >= 4 && p[0] == 80 && p[1] == 79 && p[2] == 83 && p[3] == 84)
}

/// A TCP payload that opens with a TLS handshake record.
pub open spec fn is_tls_payload(p: Seq<u8>) -> bool {
    p.len() > 0 && p[0] == 0x16
}

/// The protocol label of a transport layer. Well-known destination ports
/// decide first; for TCP on another port the payload may then upgrade the
/// generic `TCP:<port>` label.
pub open spec fn transport_label(t: TransportLayer) -> Seq<char> {
    match t {
        TransportLayer::Tcp { destination_port, payload, .. } => {
            if destination_port == 80 {
                "HTTP"@
            } else if destination_port == 443 {
                "HTTPS/TLS"@
            } else if is_http_payload(payload@) {
                "HTTP"@
            } else if is_tls_payload(payload@) {
                "HTTPS/TLS"@
            } else {
                "TCP:"@ + dec(destination_port as nat)
            }
        },
        TransportLayer::Udp { destination_port, .. } => {
            if destination_port == 53 {
                "DNS"@
            } else if destination_port == 443 {
                "QUIC/UDP"@
            } else {
                "UDP:"@ + dec(destination_port as nat)
            }
        },
        TransportLayer::Icmpv4 => "ICMPv4"@,
        TransportLayer::Icmpv6 => "ICMPv6"@,
        TransportLayer::Igmp => "IGMP"@,
        TransportLayer::Absent => "DATA"@,
    }
}

/// The protocol label of a frame: ARP carries no transport header, so its
/// label is fixed; otherwise the transport layer decides.
pub open spec fn frame_label(l: FrameLayers) -> Seq<char> {
    if l.net is Arp {
        "ARP"@
    } else {
        transport_label(l.transport)
    }
}

/// The source address text of a network layer.
pub open spec fn source_text(n: NetLayer) -> Seq<char> {
    match n {
        NetLayer::Ipv4 { source, .. } => ipv4_text(source@),
        NetLayer::Ipv6 { source_addr, .. } => source_addr@,
        NetLayer::Arp { sender, .. } => hex_joined(sender@, ":"@),
        NetLayer::Absent => "Unknown"@,
    }
}

/// The destination address text of a network layer.
pub open spec fn dest_text(n: NetLayer) -> Seq<char> {
    match n {
        NetLayer::Ipv4 { destination, .. } => ipv4_text(destination@),
        NetLayer::Ipv6 { destination_addr, .. } => destination_addr@,
        NetLayer::Arp { target, .. } => hex_joined(target@, ":"@),
        NetLayer::Absent => "Unknown"@,
    }
}

/// The one-line summary: both addresses left-aligned in fifteen columns,
/// then the protocol label.
pub open spec fn summary_text(src: Seq<char>, dst: Seq<char>, label: Seq<char>) -> Seq<char> {
    pad_right(src, 15) + " -> "@ + pad_right(dst, 15) + " | "@ + label
}

/// The link-layer section of the detail text.
pub open spec fn link_details(l: LinkLayer) -> Seq<char> {
    match l {
        LinkLayer::Ethernet2 { source, destination } => "\n--- LINK LAYER ---\nSrc MAC: "@
            + hex_list(source@) + "\nDst MAC: "@ + hex_list(destination@) + "\n"@,
        LinkLayer::Other => "\n--- LINK LAYER ---\nLink Type: Non-Ethernet\n"@,
        LinkLayer::Absent => Seq::empty(),
    }
}

/// The network-layer section of the detail text.
pub open spec fn net_details(n: NetLayer) -> Seq<char> {
    match n {
        NetLayer::Ipv4 { ttl, identification, .. } => "\n--- NETWORK LAYER ---\nProtocol: IPv4\nTTL: "@
            + dec(ttl as nat) + "\nID: "@ + dec(identification as nat) + "\n"@,
        NetLayer::Ipv6 { hop_limit, .. } => "\n--- NETWORK LAYER ---\nProtocol: IPv6\nHop Limit: "@
            + dec(hop_limit as nat) + "\n"@,
        NetLayer::Arp { .. } => "\n--- NETWORK LAYER ---\nProtocol: ARP\n"@,
        NetLayer::Absent => Seq::empty(),
    }
}

/// The transport-layer section of the detail text.
pub open spec fn transport_details(t: TransportLayer) -> Seq<char> {
    match t {
        TransportLayer::Tcp { source_port, destination_port, window_size, sequence_number, .. } =>
            "\n--- TRANSPORT LAYER ---\nType: TCP\nSrc Port: "@ + dec(source_port as nat)
            + "\nDst Port: "@ + dec(destination_port as nat) + "\nWindow: "@ + dec(
            window_size as nat) + "\nSeq: "@ + dec(sequence_number as nat) + "\n"@,
        TransportLayer::Udp { source_port, destination_port, length, .. } =>
            "\n--- TRANSPORT LAYER ---\nType: UDP\nSrc Port: "@ + dec(source_port as nat)
            + "\nDst Port: "@ + dec(destination_port as nat) + "\nLength: "@ + dec(
            length as nat) + "\n"@,
        TransportLayer::Absent => Seq::empty(),
        _ => "\n--- TRANSPORT LAYER ---\nType: Other (ICMP/Raw)\n"@,
    }
}

/// The full detail text of a frame of `len` bytes, given what slicing it found.
pub open spec fn details_text(len: nat, layers: Option<FrameLayers>) -> Seq<char> {
    let head = "--- PACKET METADATA ---\nSize: "@ + dec(len) + " bytes\n"@;
    match layers {
        Some(l) => head + link_details(l.link) + net_details(l.net) + transport_details(
            l.transport,
        ),
        None => head,
    }
}

/// The record that the classifier builds for a frame that sliced into `l`.
pub open spec fn is_record_of(
    r: PacketData,
    data: Seq<u8>,
    l: FrameLayers,
    app_name: Seq<char>,
    timestamp: u64,
    time_label: Seq<char>,
) -> bool {
    &&& r.timestamp == timestamp
    &&& r.time_label@ == time_label
    &&& r.source@ == source_text(l.net)
    &&& r.dest@ == dest_text(l.net)
    &&& r.proto_label@ == frame_label(l)
    &&& r.summary@ == summary_text(source_text(l.net), dest_text(l.net), frame_label(l))
    &&& r.full_details@ == details_text(data.len(), Some(l))
    &&& r.hex_dump@ == hex_dump(data)
    &&& r.app_name@ == app_name
    &&& r.length == data.len()
}

/// Layers with the same contents give the same texts.
proof fn lemma_same_layers_texts(a: FrameLayers, b: FrameLayers, len: nat)
    requires
        same_layers(a, b),
    ensures
        source_text(a.net) == source_text(b.net),
        dest_text(a.net) == dest_text(b.net),
        frame_label(a) == frame_label(b),
        details_text(len, Some(a)) == details_text(len, Some(b)),
{
}

/// The protocol label of a transport layer.
fn guess_protocol(t: &TransportLayer) -> (r: String)
    ensures
        r@ == transport_label(*t),
{
    let mut s = String::new();
    match t {
        TransportLayer::Tcp { destination_port, payload, .. } => {
            let port = *destination_port;
            let n = payload.len();
            let http = (n >= 3 && payload[0] == 71 && payload[1] == 69 && payload[2] == 84) || (n
                >= 4 && payload[0] == 80 && payload[1] == 79 && payload[2] == 83 && payload[3]
                == 84);
            if port == 80 {
                s.append("HTTP");
            } else if port == 443 {
                s.append("HTTPS/TLS");
            } else if http {
                s.append("HTTP");
            } else if n > 0 && payload[0] == 0x16 {
                s.append("HTTPS/TLS");
            } else {
                s.append("TCP:");
                push_dec(&mut s, port as u64);
            }
        },
        TransportLayer::Udp { destination_port, .. } => {
            let port = *destination_port;
            if port == 53 {
                s.append("DNS");
            } else if port == 443 {
                s.append("QUIC/UDP");
            } else {
                s.append("UDP:");
                push_dec(&mut s, port as u64);
            }
        },
        TransportLayer::Icmpv4 => s.append("ICMPv4"),
        TransportLayer::Icmpv6 => s.append("ICMPv6"),
        TransportLayer::Igmp => s.append("IGMP"),
        TransportLayer::Absent => s.append("DATA"),
    }
    s
}

/// The protocol label of a frame.
pub fn protocol_label(l: &FrameLayers) -> (r: String)
    ensures
        r@ == frame_label(*l),
{
    match &l.net {
        NetLayer::Arp { .. } => String::from_str("ARP"),
        _ => guess_protocol(&l.transport),
    }
}

/// The source and destination address texts of a network layer.
pub fn address_texts(n: &NetLayer) -> (r: (String, String))
    ensures
        r.0@ == source_text(*n),
        r.1@ == dest_text(*n),
{
    let mut src = String::new();
    let mut dst = String::new();
    match n {
        NetLayer::Ipv4 { source, destination, .. } => {
            push_ipv4(&mut src, source);
            push_ipv4(&mut dst, destination);
        },
        NetLayer::Ipv6 { source_addr, destination_addr, .. } => {
            src = source_addr.clone();
            dst = destination_addr.clone();
        },
        NetLayer::Arp { sender, target } => {
            push_hex_joined(&mut src, sender.as_slice(), ":");
            push_hex_joined(&mut dst, target.as_slice(), ":");
        },
        NetLayer::Absent => {
            src.append("Unknown");
            dst.append("Unknown");
        },
    }
    (src, dst)
}

/// The one-line summary of a frame.
pub fn format_summary(src: &str, dst: &str, label: &str) -> (r: String)
    ensures
        r@ == summary_text(src@, dst@, label@),
{
    let mut s = String::new();
    push_padded(&mut s, src, 15);
    s.append(" -> ");
    push_padded(&mut s, dst, 15);
    s.append(" | ");
    s.append(label);
    assert(s@ =~= summary_text(src@, dst@, label@));
    s
}

fn push_link_details(s: &mut String, l: &LinkLayer)
    ensures
        final(s)@ == old(s)@ + link_details(*l),
{
    match l {
        LinkLayer::Ethernet2 { source, destination } => {
            s.append("\n--- LINK LAYER ---\nSrc MAC: ");
            push_hex_list(s, source);
            s.append("\nDst MAC: ");
            push_hex_list(s, destination);
            s.append("\n");
        },
        LinkLayer::Other => s.append("\n--- LINK LAYER ---\nLink Type: Non-Ethernet\n"),
        LinkLayer::Absent => {},
    }
    assert(s@ =~= old(s)@ + link_details(*l));
}

fn push_net_details(s: &mut String, n: &NetLayer)
    ensures
        final(s)@ == old(s)@ + net_details(*n),
{
    match n {
        NetLayer::Ipv4 { ttl, identification, .. } => {
            s.append("\n--- NETWORK LAYER ---\nProtocol: IPv4\nTTL: ");
            push_dec(s, *ttl as u64);
            s.append("\nID: ");
            push_dec(s, *identification as u64);
            s.append("\n");
        },
        NetLayer::Ipv6 { hop_limit, .. } => {
            s.append("\n--- NETWORK LAYER ---\nProtocol: IPv6\nHop Limit: ");
            push_dec(s, *hop_limit as u64);
            s.append("\n");
        },
        NetLayer::Arp { .. } => s.append("\n--- NETWORK LAYER ---\nProtocol: ARP\n"),
        NetLayer::Absent => {},
    }
    assert(s@ =~= old(s)@ + net_details(*n));
}

fn push_transport_details(s: &mut String, t: &TransportLayer)
    ensures
        final(s)@ == old(s)@ + transport_details(*t),
{
    match t {
        TransportLayer::Tcp { source_port, destination_port, window_size, sequence_number, .. } => {
            s.append("\n--- TRANSPORT LAYER ---\nType: TCP\nSrc Port: ");
            push_dec(s, *source_port as u64);
            s.append("\nDst Port: ");
            push_dec(s, *destination_port as u64);
            s.append("\nWindow: ");
            push_dec(s, *window_size as u64);
            s.append("\nSeq: ");
            push_dec(s, *sequence_number as u64);
            s.append("\n");
        },
        TransportLayer::Udp { source_port, destination_port, length, .. } => {
            s.append("\n--- TRANSPORT LAYER ---\nType: UDP\nSrc Port: ");
            push_dec(s, *source_port as u64);
            s.append("\nDst Port: ");
            push_dec(s, *destination_port as u64);
            s.append("\nLength: ");
            push_dec(s, *length as u64);
            s.append("\n");
        },
        TransportLayer::Absent => {},
        _ => s.append("\n--- TRANSPORT LAYER ---\nType: Other (ICMP/Raw)\n"),
    }
    assert(s@ =~= old(s)@ + transport_details(*t));
}

/// The detail text of a frame of `len` bytes, given what slicing it found.
pub fn render_details(len: usize, layers: Option<&FrameLayers>) -> (r: String)
    ensures
        r@ == details_text(
            len as nat,
            match layers {
                Some(l) => Some(*l),
                None => None,
            },
        ),
{
    let mut s = String::new();
    s.append("--- PACKET METADATA ---\nSize: ");
    push_dec(&mut s, len as u64);
    s.append(" bytes\n");
    match layers {
        Some(l) => {
            push_link_details(&mut s, &l.link);
            push_net_details(&mut s, &l.net);
            push_transport_details(&mut s, &l.transport);
        },
        None => {},
    }
    proof {
        let lo = match layers {
            Some(l) => Some(*l),
            None => None,
        };
        assert(s@ =~= details_text(len as nat, lo));
    }
    s
}

/// The layered detail text of a raw frame.
pub fn format_protocol_info(data: &[u8]) -> (r: String)
    ensures
        r@ == details_text(data@.len(), sliced_ethernet(data@)),
{
    let layers = decode_ethernet(data);
    match &layers {
        Some(l) => {
            proof {
                lemma_same_layers_texts(*l, sliced_ethernet(data@)->0, data@.len());
            }
            render_details(data.len(), Some(l))
        },
        None => render_details(data.len(), None),
    }
}

/// Builds the record of a frame from the layers that slicing it found.
pub fn packet_from_layers(
    data: &[u8],
    l: &FrameLayers,
    app_name: String,
    timestamp: u64,
    time_label: String,
) -> (r: PacketData)
    ensures
        is_record_of(r, data@, *l, app_name@, timestamp, time_label@),
{
    let (source, dest) = address_texts(&l.net);
    let proto_label = protocol_label(l);
    let summary = format_summary(source.as_str(), dest.as_str(), proto_label.as_str());
    PacketData {
        timestamp,
        time_label,
        summary,
        full_details: render_details(data.len(), Some(l)),
        hex_dump: to_hex_string(data),
        app_name,
        source,
        dest,
        proto_label,
        length: data.len(),
    }
}

/// Classifies a raw Ethernet frame. Frames that cannot be sliced are dropped
/// (`None`); nothing else is touched either way.
pub fn parse_packet_full(data: &[u8], app_name: String, timestamp: u64, time_label: String) -> (r:
    Option<PacketData>)
    ensures
        r is Some <==> sliced_ethernet(data@) is Some,
        r is Some ==> is_record_of(
            r->0,
            data@,
            sliced_ethernet(data@)->0,
            app_name@,
            timestamp,
            time_label@,
        ),
{
    match decode_ethernet(data) {
        Some(l) => {
            proof {
                lemma_same_layers_texts(l, sliced_ethernet(data@)->0, data@.len());
            }
            Some(packet_from_layers(data, &l, app_name, timestamp, time_label))
        },
        None => None,
    }
}

/// The destination port of a TCP layer.
pub open spec fn tcp_destination(t: TransportLayer) -> u16 {
    match t {
        TransportLayer::Tcp { destination_port, .. } => destination_port,
        _ => 0,
    }
}

/// The payload of a TCP layer.
pub open spec fn tcp_payload(t: TransportLayer) -> Seq<u8> {
    match t {
        TransportLayer::Tcp { payload, .. } => payload@,
        _ => Seq::empty(),
    }
}

/// For every frame that slices into IPv4 and TCP, the summary shows both
/// addresses in dotted decimal, each left-aligned in fifteen columns, then
/// the label that the destination port gives: `HTTP` for port 80,
/// `HTTPS/TLS` for port 443, and `TCP:<port>` for any other port whose
/// payload opens neither with an HTTP verb nor with a TLS record (such a
/// payload upgrades the label).
pub proof fn lemma_ipv4_tcp_summary(
    data: Seq<u8>,
    r: PacketData,
    app_name: Seq<char>,
    timestamp: u64,
    time_label: Seq<char>,
)
    requires
        sliced_ethernet(data) is Some,
        sliced_ethernet(data)->0.net is Ipv4,
        sliced_ethernet(data)->0.transport is Tcp,
        tcp_destination(sliced_ethernet(data)->0.transport) == 80
            || tcp_destination(sliced_ethernet(data)->0.transport) == 443 || (!is_http_payload(
            tcp_payload(sliced_ethernet(data)->0.transport),
        ) && !is_tls_payload(tcp_payload(sliced_ethernet(data)->0.transport))),
        is_record_of(r, data, sliced_ethernet(data)->0, app_name, timestamp, time_label),
    ensures
        r.summary@ == pad_right(ipv4_text(sliced_ethernet(data)->0.net->source@), 15) + " -> "@
            + pad_right(ipv4_text(sliced_ethernet(data)->0.net->destination@), 15) + " | "@ + (
        if tcp_destination(sliced_ethernet(data)->0.transport) == 80 {
            "HTTP"@
        } else if tcp_destination(sliced_ethernet(data)->0.transport) == 443 {
            "HTTPS/TLS"@
        } else {
            "TCP:"@ + dec(tcp_destination(sliced_ethernet(data)->0.transport) as nat)
        }),
{
}

} // verus!
