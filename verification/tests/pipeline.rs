use wirefish::capture::{capture_step, consume_packet, CaptureEvent, CaptureStep};
use wirefish::classifier::classify;
use wirefish::inspect::{format_timestamp_ms, inspect, LayerReport, TransportReport};
use wirefish::models::{EthernetHeader, Packet};
use wirefish::storage::Store;
use wirefish::text::{fit_cell, u64_to_dec, usize_to_hex_min4};

/// The same frame the decoder tests use: Ethernet + IPv4 + TCP SYN to
/// port 80, with a destination MAC whose first nibble is 4 so the offline
/// inspector sees an IPv4 layout at the payload's first byte.
fn syn_frame_to_port_80() -> Vec<u8> {
    vec![
        0x45, 0x00, 0x00, 0x00, 0x00, 0x01, 0x00, 0x00, 0x00, 0x06, 0x00, 0x00, 0x08, 0x00, 0x45,
        0x00, 0x00, 0x28, 0x00, 0x00, 0x00, 0x00, 0x40, 0x06, 0x00, 0x00, 0xc0, 0xa8, 0x00, 0x01,
        0x5d, 0xb8, 0xd8, 0x22, 0xd4, 0x31, 0x00, 0x50, 0x00, 0x00, 0x00, 0x01, 0x00, 0x00, 0x00,
        0x00, 0x50, 0x02, 0x20, 0x00, 0x00, 0x00, 0x00, 0x00,
    ]
}

#[test]
fn timeout_retries_and_fatal_terminates() {
    assert!(matches!(capture_step(CaptureEvent::Timeout), CaptureStep::Retry));
    assert!(matches!(capture_step(CaptureEvent::Fatal), CaptureStep::Terminate));
}

#[test]
fn short_frame_is_discarded() {
    let step = capture_step(CaptureEvent::Frame(vec![1, 2, 3]));
    assert!(matches!(step, CaptureStep::Discard));
}

#[test]
fn ipv6_frame_gets_its_network_layer_in_the_post_pass() {
    let mut raw = vec![0u8; 54];
    raw[12] = 0x86;
    raw[13] = 0xdd;
    raw[20] = 6; // next header TCP
    raw[53] = 1; // last byte of the destination address
    let step = capture_step(CaptureEvent::Frame(raw));
    let packet = match step {
        CaptureStep::Publish(p) => p,
        _ => panic!("a 54-byte frame is published"),
    };
    let ip = packet.ip.expect("the post-pass fills IPv6");
    assert_eq!(ip.protocol, 6);
    assert_eq!(ip.src_ip, "0000:0000:0000:0000:0000:0000:0000:0000");
    assert_eq!(ip.dst_ip, "0000:0000:0000:0000:0000:0000:0000:0001");
}

#[test]
fn arp_frame_gets_addresses_and_protocol_zero() {
    let mut raw = vec![0u8; 42];
    raw[12] = 0x08;
    raw[13] = 0x06;
    raw[28] = 192;
    raw[29] = 168;
    raw[30] = 0;
    raw[31] = 7; // sender IP
    raw[38] = 192;
    raw[39] = 168;
    raw[40] = 0;
    raw[41] = 1; // target IP
    let step = capture_step(CaptureEvent::Frame(raw));
    let packet = match step {
        CaptureStep::Publish(p) => p,
        _ => panic!("a 42-byte ARP frame is published"),
    };
    {
        let ip = packet.ip.as_ref().expect("the post-pass fills ARP addresses");
        assert_eq!(ip.protocol, 0, "0 marks ARP rather than true IP traffic");
        assert_eq!(ip.src_ip, "192.168.0.7");
        assert_eq!(ip.dst_ip, "192.168.0.1");
    }
    assert_eq!(classify(&packet), "ARP");
}

#[test]
fn consumer_skips_unrecognized_frames_without_network_layer() {
    let packet = Packet {
        timestamp: 0,
        eth: Some(EthernetHeader {
            src_mac: "00:00:00:00:00:00".to_string(),
            dst_mac: "00:00:00:00:00:00".to_string(),
            ethertype: 0x1234,
        }),
        ip: None,
        transport: None,
        payload: vec![0u8; 14],
    };
    let out = consume_packet(1, "eth0", &packet);
    assert_eq!(out.label, "OTHER");
    assert!(!out.keep);
    assert_eq!(out.record.src_ip, "?");
    assert_eq!(out.record.dst_ip, "?");
}

#[test]
fn end_to_end_syn_frame_to_port_80() {
    // capture: the raw frame becomes a published packet
    let raw = syn_frame_to_port_80();
    let step = capture_step(CaptureEvent::Frame(raw.clone()));
    let packet = match step {
        CaptureStep::Publish(p) => p,
        _ => panic!("the frame is published"),
    };

    // classify: port 80 on either side is HTTP
    let out = consume_packet(1, "eth0", &packet);
    assert_eq!(out.label, "HTTP");
    assert!(out.keep);

    // persist, then look the id up again
    let mut store = Store::new();
    store.append(&out.record);
    let found = store.lookup(1).expect("the record is stored under id 1");
    assert_eq!(found.iface, "eth0");
    assert_eq!(found.proto, "HTTP");
    assert_eq!(found.src_ip, "192.168.0.1");
    assert_eq!(found.dst_ip, "93.184.216.34");
    assert_eq!(found.size, raw.len());
    assert_eq!(found.payload, raw);

    // inspect: the record's payload is the whole frame, read from its
    // first nibble, which this frame's MAC bytes make an IPv4 layout
    let report = inspect(&found);
    let v4 = match report.layers {
        LayerReport::Ipv4(v4) => v4,
        _ => panic!("the inspector lists IPv4"),
    };
    assert_eq!(v4.ihl, 5);
    assert_eq!(v4.protocol, 6, "the inspector lists TCP");
    let tcp = match v4.transport {
        TransportReport::Tcp(t) => t,
        _ => panic!("the inspector breaks the TCP header down"),
    };
    // the ports as the payload-relative layout defines them
    assert_eq!(tcp.src_port, 0x0000);
    assert_eq!(tcp.dst_port, 0x4006);

    // the dump shows every payload byte exactly once: each row is 57
    // characters of offset and hex columns plus one ASCII character per
    // byte shown
    assert_eq!(report.dump.len(), (raw.len() + 15) / 16);
    let shown: usize = report.dump.iter().map(|row| row.chars().count() - 57).sum();
    assert_eq!(shown, raw.len());
}

#[test]
fn hexdump_rows_have_the_documented_shape() {
    let rec = wirefish::storage::InspectRecord {
        id: 1,
        iface: "eth0".to_string(),
        proto: "OTHER".to_string(),
        src_ip: "?".to_string(),
        dst_ip: "?".to_string(),
        size: 5,
        payload: vec![0x45, 0x00, 0x20, 0x41, 0x7f],
    };
    let report = inspect(&rec);
    assert_eq!(report.dump.len(), 1);
    // offset, two spaces, five filled cells, eleven empty cells (with the
    // extra gap after the eighth), two spaces, then the ASCII column
    let expected = format!("0000  45 00 20 41 7f{}E. A.", " ".repeat(37));
    assert_eq!(report.dump[0], expected);
}

#[test]
fn empty_payload_has_no_dump_rows_and_an_empty_report() {
    let rec = wirefish::storage::InspectRecord {
        id: 1,
        iface: "eth0".to_string(),
        proto: "OTHER".to_string(),
        src_ip: "?".to_string(),
        dst_ip: "?".to_string(),
        size: 0,
        payload: vec![],
    };
    let report = inspect(&rec);
    assert!(matches!(report.layers, LayerReport::Empty));
    assert!(report.dump.is_empty());
}

#[test]
fn truncated_headers_are_reported_not_read() {
    let rec = wirefish::storage::InspectRecord {
        id: 1,
        iface: "eth0".to_string(),
        proto: "OTHER".to_string(),
        src_ip: "?".to_string(),
        dst_ip: "?".to_string(),
        size: 3,
        payload: vec![0x45, 0x00, 0x00],
    };
    match inspect(&rec).layers {
        LayerReport::Ipv4Truncated { len } => assert_eq!(len, 3),
        _ => panic!("a 3-byte IPv4 payload is reported truncated"),
    }

    let rec6 = wirefish::storage::InspectRecord {
        id: 2,
        iface: "eth0".to_string(),
        proto: "OTHER".to_string(),
        src_ip: "?".to_string(),
        dst_ip: "?".to_string(),
        size: 10,
        payload: vec![0x60; 10],
    };
    match inspect(&rec6).layers {
        LayerReport::Ipv6Truncated { len } => assert_eq!(len, 10),
        _ => panic!("a 10-byte IPv6 payload is reported truncated"),
    }
}

#[test]
fn capture_time_text_is_utc_with_milliseconds() {
    assert_eq!(format_timestamp_ms(0), "1970-01-01 00:00:00.000");
    assert_eq!(format_timestamp_ms(1609459200123), "2021-01-01 00:00:00.123");
    assert_eq!(format_timestamp_ms(1609459200007), "2021-01-01 00:00:00.007");
    assert_eq!(format_timestamp_ms(1609459200087), "2021-01-01 00:00:00.087");
}

#[test]
fn decimal_and_hex_text_helpers() {
    assert_eq!(u64_to_dec(0), "0");
    assert_eq!(u64_to_dec(42), "42");
    assert_eq!(u64_to_dec(u64::MAX), "18446744073709551615");
    assert_eq!(usize_to_hex_min4(0), "0000");
    assert_eq!(usize_to_hex_min4(0x2f), "002f");
    assert_eq!(usize_to_hex_min4(0xabcd), "abcd");
    assert_eq!(usize_to_hex_min4(0x12345), "12345");
}

#[test]
fn cells_are_fitted_with_an_ellipsis() {
    assert_eq!(fit_cell("short", 30), "short");
    assert_eq!(fit_cell("exactly-ten", 11), "exactly-ten");
    assert_eq!(fit_cell("hello world", 5), "hell\u{2026}");
    assert_eq!(fit_cell("hello", 1), "\u{2026}");
}
