use etherparse::{LinuxSllPacketType, PacketBuilder};
use net_sniff::capture::{format_protocol_info, parse_packet_full, PacketData};
use net_sniff::frame::frame_ports;
use net_sniff::hexdump::to_hex_string;
use net_sniff::pipeline::{is_noise_record, process_frame, refresh_due};
use net_sniff::process::{ProcessResolver, ProcessSockets, SocketEntry, SocketSnapshot};

const SRC_MAC: [u8; 6] = [1, 2, 3, 4, 5, 6];
const DST_MAC: [u8; 6] = [7, 8, 9, 10, 11, 12];

fn tcp_frame(src: [u8; 4], dst: [u8; 4], sport: u16, dport: u16, payload: &[u8]) -> Vec<u8> {
    let builder = PacketBuilder::ethernet2(SRC_MAC, DST_MAC)
        .ipv4(src, dst, 64)
        .tcp(sport, dport, 7, 1024);
    let mut v = Vec::new();
    builder.write(&mut v, payload).unwrap();
    v
}

fn udp_frame(src: [u8; 4], dst: [u8; 4], sport: u16, dport: u16, payload: &[u8]) -> Vec<u8> {
    let builder = PacketBuilder::ethernet2(SRC_MAC, DST_MAC)
        .ipv4(src, dst, 32)
        .udp(sport, dport);
    let mut v = Vec::new();
    builder.write(&mut v, payload).unwrap();
    v
}

fn classify(data: &[u8]) -> Option<PacketData> {
    parse_packet_full(data, String::from("app"), 5, String::from("12:00:00"))
}

fn label_of(data: &[u8]) -> String {
    classify(data).unwrap().proto_label
}

#[test]
fn ipv4_tcp_summary_https_port() {
    let f = tcp_frame([192, 168, 1, 1], [10, 0, 0, 2], 51000, 443, &[]);
    let r = classify(&f).unwrap();
    assert_eq!(r.summary, "192.168.1.1     -> 10.0.0.2        | HTTPS/TLS");
    assert_eq!(r.source, "192.168.1.1");
    assert_eq!(r.dest, "10.0.0.2");
    assert_eq!(r.length, f.len());
    assert_eq!(r.app_name, "app");
    assert_eq!(r.timestamp, 5);
    assert_eq!(r.time_label, "12:00:00");
}

#[test]
fn ipv4_tcp_summary_http_port() {
    let f = tcp_frame([10, 1, 2, 3], [93, 184, 216, 34], 40000, 80, &[1, 2, 3]);
    let r = classify(&f).unwrap();
    assert_eq!(r.summary, "10.1.2.3        -> 93.184.216.34   | HTTP");
}

#[test]
fn ipv4_tcp_summary_generic_port() {
    let f = tcp_frame([255, 255, 255, 255], [0, 0, 0, 0], 1, 8080, &[0, 1]);
    let r = classify(&f).unwrap();
    assert_eq!(r.summary, "255.255.255.255 -> 0.0.0.0         | TCP:8080");
}

#[test]
fn port_beats_payload_sniffing() {
    assert_eq!(label_of(&tcp_frame([1, 1, 1, 1], [2, 2, 2, 2], 1, 443, b"GET /")), "HTTPS/TLS");
    assert_eq!(label_of(&tcp_frame([1, 1, 1, 1], [2, 2, 2, 2], 1, 80, &[0x16, 3, 1])), "HTTP");
}

#[test]
fn payload_sniffing_upgrades_generic_label() {
    assert_eq!(label_of(&tcp_frame([1, 1, 1, 1], [2, 2, 2, 2], 1, 8080, b"GET /")), "HTTP");
    assert_eq!(label_of(&tcp_frame([1, 1, 1, 1], [2, 2, 2, 2], 1, 8080, b"POST /x")), "HTTP");
    assert_eq!(label_of(&tcp_frame([1, 1, 1, 1], [2, 2, 2, 2], 1, 8443, &[0x16, 3, 3])), "HTTPS/TLS");
    assert_eq!(label_of(&tcp_frame([1, 1, 1, 1], [2, 2, 2, 2], 1, 8443, b"GE")), "TCP:8443");
}

#[test]
fn udp_labels() {
    assert_eq!(label_of(&udp_frame([1, 1, 1, 1], [8, 8, 8, 8], 5353, 53, &[0; 12])), "DNS");
    assert_eq!(label_of(&udp_frame([1, 1, 1, 1], [8, 8, 8, 8], 5353, 443, &[])), "QUIC/UDP");
    assert_eq!(label_of(&udp_frame([1, 1, 1, 1], [8, 8, 8, 8], 5353, 123, &[])), "UDP:123");
}

#[test]
fn icmp_label() {
    let builder = PacketBuilder::ethernet2(SRC_MAC, DST_MAC)
        .ipv4([1, 1, 1, 1], [2, 2, 2, 2], 64)
        .icmpv4_echo_request(1, 2);
    let mut v = Vec::new();
    builder.write(&mut v, &[]).unwrap();
    assert_eq!(label_of(&v), "ICMPv4");
}

#[test]
fn ipv6_addresses_use_standard_text() {
    let mut src = [0u8; 16];
    src[0] = 0x20;
    src[1] = 0x01;
    src[2] = 0x0d;
    src[3] = 0xb8;
    src[15] = 1;
    let mut dst = [0u8; 16];
    dst[0] = 0xfe;
    dst[1] = 0x80;
    dst[15] = 0x2a;
    let builder = PacketBuilder::ethernet2(SRC_MAC, DST_MAC)
        .ipv6(src, dst, 9)
        .udp(1000, 53);
    let mut v = Vec::new();
    builder.write(&mut v, &[]).unwrap();
    let r = classify(&v).unwrap();
    assert_eq!(r.source, "2001:db8::1");
    assert_eq!(r.dest, "fe80::2a");
    assert_eq!(r.summary, "2001:db8::1     -> fe80::2a        | DNS");
    assert!(r.full_details.contains("Protocol: IPv6\nHop Limit: 9\n"));
}

fn arp_frame() -> Vec<u8> {
    let mut v = Vec::new();
    v.extend_from_slice(&[0xff; 6]);
    v.extend_from_slice(&SRC_MAC);
    v.extend_from_slice(&[0x08, 0x06]);
    v.extend_from_slice(&[0, 1, 0x08, 0, 6, 4, 0, 1]);
    v.extend_from_slice(&[0xAA, 0xBB, 0xCC, 0x01, 0x02, 0x03]);
    v.extend_from_slice(&[192, 168, 0, 1]);
    v.extend_from_slice(&[0, 0, 0, 0, 0, 0]);
    v.extend_from_slice(&[192, 168, 0, 2]);
    v
}

#[test]
fn arp_uses_hardware_addresses() {
    let r = classify(&arp_frame()).unwrap();
    assert_eq!(r.proto_label, "ARP");
    assert_eq!(r.source, "AA:BB:CC:01:02:03");
    assert_eq!(r.dest, "00:00:00:00:00:00");
    assert_eq!(r.summary, "AA:BB:CC:01:02:03 -> 00:00:00:00:00:00 | ARP");
    assert!(r.full_details.contains("--- NETWORK LAYER ---\nProtocol: ARP\n"));
}

#[test]
fn unknown_ether_type_gives_data_label() {
    let mut v = Vec::new();
    v.extend_from_slice(&DST_MAC);
    v.extend_from_slice(&SRC_MAC);
    v.extend_from_slice(&[0x88, 0xB5, 1, 2, 3]);
    let r = classify(&v).unwrap();
    assert_eq!(r.source, "Unknown");
    assert_eq!(r.dest, "Unknown");
    assert_eq!(r.proto_label, "DATA");
}

#[test]
fn short_frames_are_dropped() {
    assert!(classify(&[]).is_none());
    assert!(classify(&[1, 2, 3]).is_none());
    assert!(classify(&[0u8; 13]).is_none());
}

#[test]
fn truncated_ipv4_is_dropped() {
    let f = tcp_frame([1, 1, 1, 1], [2, 2, 2, 2], 1, 2, &[]);
    assert!(classify(&f[..20]).is_none());
}

#[test]
fn details_text_of_tcp_frame() {
    let f = tcp_frame([192, 168, 1, 1], [10, 0, 0, 2], 51000, 443, &[]);
    let d = classify(&f).unwrap().full_details;
    let expected_head = "--- PACKET METADATA ---\nSize: 54 bytes\n\n--- LINK LAYER ---\nSrc MAC: [01, 02, 03, 04, 05, 06]\nDst MAC: [07, 08, 09, 0A, 0B, 0C]\n\n--- NETWORK LAYER ---\nProtocol: IPv4\nTTL: 64\nID: ";
    assert!(d.starts_with(expected_head));
    assert!(d.ends_with("\n--- TRANSPORT LAYER ---\nType: TCP\nSrc Port: 51000\nDst Port: 443\nWindow: 1024\nSeq: 7\n"));
    assert_eq!(format_protocol_info(&f), d);
}

#[test]
fn details_text_of_udp_frame() {
    let f = udp_frame([1, 1, 1, 1], [8, 8, 8, 8], 5353, 53, &[0; 12]);
    let d = format_protocol_info(&f);
    assert!(d.ends_with("\n--- TRANSPORT LAYER ---\nType: UDP\nSrc Port: 5353\nDst Port: 53\nLength: 20\n"));
    assert!(d.contains("TTL: 32\n"));
}

#[test]
fn details_text_of_unsliceable_frame() {
    assert_eq!(format_protocol_info(&[1, 2, 3]), "--- PACKET METADATA ---\nSize: 3 bytes\n");
}

#[test]
fn record_carries_hex_dump() {
    let f = tcp_frame([1, 1, 1, 1], [2, 2, 2, 2], 1, 2, &[]);
    let r = classify(&f).unwrap();
    assert_eq!(r.hex_dump, to_hex_string(&f));
    assert!(r.hex_dump.starts_with("07 08 09 0A 0B 0C 01 02 03 04 05 06 08 00 45 00 |"));
}

#[test]
fn ports_of_ethernet_and_cooked_frames() {
    assert_eq!(frame_ports(&tcp_frame([1, 1, 1, 1], [2, 2, 2, 2], 4321, 80, &[])), (4321, 80));
    let builder = PacketBuilder::linux_sll(LinuxSllPacketType::OTHERHOST, 6, [1, 2, 3, 4, 5, 6, 0, 0])
        .ipv4([1, 1, 1, 1], [2, 2, 2, 2], 20)
        .udp(777, 53);
    let mut v = Vec::new();
    builder.write(&mut v, &[1, 2]).unwrap();
    assert_eq!(frame_ports(&v), (777, 53));
    assert_eq!(frame_ports(&arp_frame()), (0, 0));
    assert_eq!(frame_ports(&[1, 2, 3]), (0, 0));
}

#[test]
fn noise_filter() {
    let mut r = classify(&udp_frame([1, 1, 1, 1], [239, 255, 255, 250], 1900, 1900, &[])).unwrap();
    assert!(is_noise_record(&r));
    r.dest = String::from("ff05::c");
    assert!(is_noise_record(&r));
    r.dest = String::from("10.0.0.1");
    assert!(!is_noise_record(&r));
    r.proto_label = String::from("SSDP");
    assert!(is_noise_record(&r));
}

#[test]
fn refresh_interval() {
    assert!(!refresh_due(0, 2_000_000_000));
    assert!(refresh_due(0, 2_000_000_001));
    assert!(!refresh_due(5, 3));
}

fn resolver_with(port: u16, name: &str) -> ProcessResolver {
    let mut res = ProcessResolver::new();
    res.refresh(SocketSnapshot {
        processes: vec![ProcessSockets { name: String::from(name), inodes: vec![99] }],
        tcp: vec![SocketEntry { port, inode: 99 }],
        udp: vec![],
    });
    res
}

#[test]
fn pipeline_attributes_and_filters() {
    let res = resolver_with(4321, "curl");
    let f = tcp_frame([1, 1, 1, 1], [2, 2, 2, 2], 4321, 80, &[]);
    let r = process_frame(&f, &res, 9, String::from("t")).unwrap();
    assert_eq!(r.app_name, "curl");
    let g = tcp_frame([1, 1, 1, 1], [2, 2, 2, 2], 50000, 4321, &[]);
    assert_eq!(process_frame(&g, &res, 9, String::from("t")).unwrap().app_name, "curl");
    let h = tcp_frame([1, 1, 1, 1], [2, 2, 2, 2], 50000, 81, &[]);
    assert_eq!(process_frame(&h, &res, 9, String::from("t")).unwrap().app_name, "Unknown");
    let noise = udp_frame([1, 1, 1, 1], [239, 255, 255, 250], 1900, 1900, &[]);
    assert!(process_frame(&noise, &res, 9, String::from("t")).is_none());
    assert!(process_frame(&[0u8; 5], &res, 9, String::from("t")).is_none());
}
