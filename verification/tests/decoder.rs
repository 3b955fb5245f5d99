use wirefish::models::TransportProtocol;
use wirefish::parser::{decode_frame, parse_packet};

/// A 54-byte Ethernet + IPv4 + TCP SYN frame to port 80.  The destination
/// MAC deliberately begins with 0x45 so the offline inspector, which reads
/// the stored payload from its first nibble, sees an IPv4 layout too.
fn syn_frame_to_port_80() -> Vec<u8> {
    vec![
        0x45, 0x00, 0x00, 0x00, 0x00, 0x01, // dst MAC
        0x00, 0x00, 0x00, 0x06, 0x00, 0x00, // src MAC
        0x08, 0x00, // EtherType IPv4
        0x45, 0x00, // version/IHL, DSCP
        0x00, 0x28, // total length 40
        0x00, 0x00, // identification
        0x00, 0x00, // flags/fragment
        0x40, 0x06, // TTL 64, protocol TCP
        0x00, 0x00, // checksum
        0xc0, 0xa8, 0x00, 0x01, // src IP 192.168.0.1
        0x5d, 0xb8, 0xd8, 0x22, // dst IP 93.184.216.34
        0xd4, 0x31, // src port 54321
        0x00, 0x50, // dst port 80
        0x00, 0x00, 0x00, 0x01, // seq
        0x00, 0x00, 0x00, 0x00, // ack
        0x50, 0x02, // data offset, flags SYN
        0x20, 0x00, 0x00, 0x00, 0x00, 0x00, // window, checksum, urgent
    ]
}

#[test]
fn refuses_empty_frame() {
    assert!(parse_packet(&[]).is_none());
}

#[test]
fn refuses_frames_shorter_than_ethernet() {
    for len in 0..14 {
        let raw = vec![0xaau8; len];
        assert!(parse_packet(&raw).is_none(), "length {len} must be refused");
    }
}

#[test]
fn accepts_exactly_fourteen_bytes() {
    let raw: Vec<u8> = vec![
        0x01, 0x02, 0x03, 0x04, 0x05, 0x06, 0x11, 0x22, 0x33, 0x44, 0x55, 0x66, 0x12, 0x34,
    ];
    let p = decode_frame(&raw, 5).expect("14 bytes decode");
    let eth = p.eth.expect("link layer present");
    assert_eq!(eth.dst_mac, "01:02:03:04:05:06");
    assert_eq!(eth.src_mac, "11:22:33:44:55:66");
    assert_eq!(eth.ethertype, 0x1234);
    assert_eq!(p.timestamp, 5);
    assert!(p.ip.is_none());
    assert!(p.transport.is_none());
    assert_eq!(p.payload, raw);
}

#[test]
fn decodes_ipv4_tcp_frame() {
    let raw = syn_frame_to_port_80();
    let p = decode_frame(&raw, 1700000000000).expect("decodes");
    let eth = p.eth.expect("link layer");
    assert_eq!(eth.ethertype, 0x0800);
    let ip = p.ip.expect("network layer");
    assert_eq!(ip.src_ip, "192.168.0.1");
    assert_eq!(ip.dst_ip, "93.184.216.34");
    assert_eq!(ip.protocol, 6);
    match p.transport.expect("transport layer") {
        TransportProtocol::Tcp(t) => {
            assert_eq!(t.src_port, 54321);
            assert_eq!(t.dst_port, 80);
            assert_eq!(t.flags, 0x02);
        }
        other => panic!("expected TCP, got {:?}", label_of(&other)),
    }
    assert_eq!(p.payload, raw);
}

fn label_of(t: &TransportProtocol) -> &'static str {
    match t {
        TransportProtocol::Tcp(_) => "TCP",
        TransportProtocol::Udp(_) => "UDP",
        TransportProtocol::Icmp => "ICMP",
        TransportProtocol::Unknown => "Unknown",
    }
}

#[test]
fn tcp_frame_too_short_for_flags_has_no_transport() {
    let mut raw = syn_frame_to_port_80();
    raw.truncate(47); // flags live at byte 47, which needs 48 bytes
    let p = decode_frame(&raw, 0).expect("still a packet");
    assert!(p.ip.is_some(), "network layer survives");
    assert!(p.transport.is_none(), "transport treated as absent");
}

#[test]
fn frame_between_34_and_38_bytes_has_ip_but_no_transport() {
    let mut raw = syn_frame_to_port_80();
    raw.truncate(36);
    let p = decode_frame(&raw, 0).expect("still a packet");
    assert!(p.ip.is_some());
    assert!(p.transport.is_none());
}

#[test]
fn decodes_udp_frame() {
    let mut raw = syn_frame_to_port_80();
    raw[23] = 17; // protocol UDP
    raw[34] = 0x00;
    raw[35] = 0x35; // src port 53
    raw[36] = 0xd4;
    raw[37] = 0x31; // dst port 54321
    let p = decode_frame(&raw, 0).expect("decodes");
    match p.transport.expect("transport") {
        TransportProtocol::Udp(u) => {
            assert_eq!(u.src_port, 53);
            assert_eq!(u.dst_port, 54321);
        }
        _ => panic!("expected UDP"),
    }
}

#[test]
fn decodes_icmp_and_unknown_protocols() {
    let mut raw = syn_frame_to_port_80();
    raw[23] = 1;
    let p = decode_frame(&raw, 0).unwrap();
    assert!(matches!(p.transport, Some(TransportProtocol::Icmp)));

    raw[23] = 99;
    let p = decode_frame(&raw, 0).unwrap();
    assert!(matches!(p.transport, Some(TransportProtocol::Unknown)));
}

#[test]
fn non_ipv4_ethertype_leaves_higher_layers_empty() {
    let mut raw = syn_frame_to_port_80();
    raw[12] = 0x86;
    raw[13] = 0xdd;
    let p = decode_frame(&raw, 0).expect("still a packet");
    assert!(p.ip.is_none(), "base decoder leaves IPv6 to the post-pass");
    assert!(p.transport.is_none());
}

#[test]
fn parse_packet_stamps_a_clock_time() {
    let raw = syn_frame_to_port_80();
    let p = parse_packet(&raw).expect("decodes");
    // the capture stamp comes from the wall clock, well past the epoch
    assert!(p.timestamp > 0);
}
