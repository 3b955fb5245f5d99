use wirefish::alerts::detect_suspicious;
use wirefish::classifier::classify;
use wirefish::models::{
    EthernetHeader, IpHeader, IpReputation, Packet, TcpHeader, TransportProtocol, UdpHeader,
};
use wirefish::port_classifier;

fn eth(ethertype: u16) -> EthernetHeader {
    EthernetHeader {
        src_mac: "11:22:33:44:55:66".to_string(),
        dst_mac: "aa:bb:cc:dd:ee:ff".to_string(),
        ethertype,
    }
}

fn ip4(protocol: u8) -> IpHeader {
    IpHeader {
        src_ip: "10.0.0.1".to_string(),
        dst_ip: "10.0.0.2".to_string(),
        protocol,
    }
}

fn tcp_packet(src_port: u16, dst_port: u16, payload: Vec<u8>) -> Packet {
    Packet {
        timestamp: 0,
        eth: Some(eth(0x0800)),
        ip: Some(ip4(6)),
        transport: Some(TransportProtocol::Tcp(TcpHeader { src_port, dst_port, flags: 0 })),
        payload,
    }
}

fn udp_packet(src_port: u16, dst_port: u16) -> Packet {
    Packet {
        timestamp: 0,
        eth: Some(eth(0x0800)),
        ip: Some(ip4(17)),
        transport: Some(TransportProtocol::Udp(UdpHeader { src_port, dst_port })),
        payload: vec![],
    }
}

#[test]
fn tls13_sniffed_on_port_443() {
    let p = tcp_packet(51000, 443, vec![0x16, 0x03, 0x04, 0x00, 0x01]);
    assert_eq!(classify(&p), "TLSv1.3");
}

#[test]
fn tls12_sniffed_on_port_443() {
    let p = tcp_packet(51000, 443, vec![0x16, 0x03, 0x03, 0x00, 0x01]);
    assert_eq!(classify(&p), "TLSv1.2");
}

#[test]
fn generic_tls_record_on_port_443() {
    let p = tcp_packet(51000, 443, vec![0x16, 0x03, 0x01, 0x00, 0x01]);
    assert_eq!(classify(&p), "TLS");
}

#[test]
fn non_tls_payload_on_port_443_is_https() {
    let p = tcp_packet(51000, 443, vec![0x47, 0x45, 0x54, 0x20, 0x2f]);
    assert_eq!(classify(&p), "HTTPS");
}

#[test]
fn short_payload_on_port_443_is_https() {
    let p = tcp_packet(51000, 443, vec![0x16, 0x03]);
    assert_eq!(classify(&p), "HTTPS");
}

#[test]
fn classification_ignores_port_direction() {
    let cases: &[(u16, u16)] = &[(443, 51000), (80, 51000), (53, 1024), (1024, 53)];
    for &(a, b) in cases {
        let fwd = classify(&tcp_packet(a, b, vec![0x16, 0x03, 0x04, 0, 0]));
        let rev = classify(&tcp_packet(b, a, vec![0x16, 0x03, 0x04, 0, 0]));
        assert_eq!(fwd, rev, "ports {a}/{b}");
    }
    let fwd = classify(&udp_packet(5353, 49000));
    let rev = classify(&udp_packet(49000, 5353));
    assert_eq!(fwd, rev);
}

#[test]
fn tcp_port_table() {
    assert_eq!(classify(&tcp_packet(53, 49000, vec![])), "DNS");
    assert_eq!(classify(&tcp_packet(49000, 80, vec![])), "HTTP");
    assert_eq!(classify(&tcp_packet(80, 49000, vec![])), "HTTP");
    assert_eq!(classify(&tcp_packet(49000, 49001, vec![])), "TCP");
}

#[test]
fn udp_port_table() {
    assert_eq!(classify(&udp_packet(53, 49000)), "DNS");
    assert_eq!(classify(&udp_packet(67, 68)), "DHCP");
    assert_eq!(classify(&udp_packet(68, 49000)), "DHCP");
    assert_eq!(classify(&udp_packet(123, 49000)), "NTP");
    assert_eq!(classify(&udp_packet(137, 49000)), "NBNS");
    assert_eq!(classify(&udp_packet(1900, 49000)), "SSDP");
    assert_eq!(classify(&udp_packet(5353, 49000)), "mDNS");
    assert_eq!(classify(&udp_packet(443, 49000)), "QUIC");
    assert_eq!(classify(&udp_packet(49000, 49001)), "UDP");
}

#[test]
fn ethernet_overrides_come_first() {
    let mut p = tcp_packet(49000, 443, vec![]);
    p.eth = Some(eth(0x0806));
    assert_eq!(classify(&p), "ARP");
    p.eth = Some(eth(0x88CC));
    assert_eq!(classify(&p), "LLDP");
}

#[test]
fn protocol_number_table() {
    let mut p = tcp_packet(0, 0, vec![]);
    p.ip = Some(ip4(1));
    assert_eq!(classify(&p), "ICMP");
    p.ip = Some(ip4(2));
    assert_eq!(classify(&p), "IGMPv2");
    p.ip = Some(ip4(58));
    assert_eq!(classify(&p), "ICMPv6");
}

#[test]
fn unknown_protocol_falls_back_on_address_text() {
    let mut p = tcp_packet(0, 0, vec![]);
    p.ip = Some(ip4(99));
    assert_eq!(classify(&p), "IPV4");
    p.ip = Some(IpHeader {
        src_ip: "fe80::1".to_string(),
        dst_ip: "10.0.0.2".to_string(),
        protocol: 99,
    });
    assert_eq!(classify(&p), "IPV6");
}

#[test]
fn no_layers_at_all_is_other() {
    let p = Packet { timestamp: 0, eth: Some(eth(0x1234)), ip: None, transport: None, payload: vec![] };
    assert_eq!(classify(&p), "OTHER");
    let bare = Packet { timestamp: 0, eth: None, ip: None, transport: None, payload: vec![] };
    assert_eq!(classify(&bare), "OTHER");
}

#[test]
fn port_classifier_tables() {
    let by_dst = |dst: u16| {
        port_classifier::classify(&tcp_packet(49000, dst, vec![]))
    };
    assert_eq!(by_dst(80), "HTTP");
    assert_eq!(by_dst(443), "HTTPS");
    assert_eq!(by_dst(22), "SSH");
    assert_eq!(by_dst(53), "DNS-over-TCP");
    assert_eq!(by_dst(8080), "TCP");
    assert_eq!(port_classifier::classify(&udp_packet(49000, 53)), "DNS");
    assert_eq!(port_classifier::classify(&udp_packet(49000, 67)), "DHCP");
    assert_eq!(port_classifier::classify(&udp_packet(49000, 9999)), "UDP");
    let mut p = tcp_packet(0, 0, vec![]);
    p.transport = Some(TransportProtocol::Icmp);
    assert_eq!(port_classifier::classify(&p), "ICMP");
    p.transport = None;
    assert_eq!(port_classifier::classify(&p), "Unknown");
}

fn reputation(score: u32) -> IpReputation {
    IpReputation { ip: "10.0.0.1".to_string(), country: None, score, tags: vec![] }
}

#[test]
fn ftp_control_is_always_suspicious() {
    let mut p = tcp_packet(0, 0, vec![]);
    p.ip = Some(ip4(21));
    assert!(detect_suspicious(&p, None));
    assert!(detect_suspicious(&p, Some(&reputation(0))));
}

#[test]
fn high_reputation_score_is_suspicious() {
    let p = tcp_packet(49000, 443, vec![]);
    assert!(detect_suspicious(&p, Some(&reputation(71))));
    assert!(detect_suspicious(&p, Some(&reputation(100))));
}

#[test]
fn low_score_and_ordinary_protocol_is_not_suspicious() {
    let p = tcp_packet(49000, 443, vec![]);
    assert!(!detect_suspicious(&p, Some(&reputation(70))));
    assert!(!detect_suspicious(&p, Some(&reputation(0))));
    assert!(!detect_suspicious(&p, None));
}
