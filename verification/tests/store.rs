use wirefish::storage::{encode_record, parse_record, InspectRecord, Store};

fn sample_record(id: u64) -> InspectRecord {
    InspectRecord {
        id,
        iface: "eth0".to_string(),
        proto: "HTTP".to_string(),
        src_ip: "1.2.3.4".to_string(),
        dst_ip: "?".to_string(),
        size: 3,
        payload: vec![0x00, 0xff, 0x10],
    }
}

fn assert_records_equal(a: &InspectRecord, b: &InspectRecord) {
    assert_eq!(a.id, b.id);
    assert_eq!(a.iface, b.iface);
    assert_eq!(a.proto, b.proto);
    assert_eq!(a.src_ip, b.src_ip);
    assert_eq!(a.dst_ip, b.dst_ip);
    assert_eq!(a.size, b.size);
    assert_eq!(a.payload, b.payload);
}

#[test]
fn encoding_is_the_documented_line() {
    let line = encode_record(&sample_record(7));
    assert_eq!(line, "id=7;if=4:eth0;pr=4:HTTP;src=7:1.2.3.4;dst=1:?;sz=3;pl=00ff10");
}

#[test]
fn line_round_trips_byte_for_byte() {
    let rec = sample_record(42);
    let line = encode_record(&rec);
    let back = parse_record(&line).expect("own line parses");
    assert_records_equal(&rec, &back);
}

#[test]
fn field_text_never_needs_escaping() {
    let rec = InspectRecord {
        id: 1,
        iface: "a;b:c=d pl=evil".to_string(),
        proto: "we;rd".to_string(),
        src_ip: "fe80::1".to_string(),
        dst_ip: "::".to_string(),
        size: 0,
        payload: vec![],
    };
    let back = parse_record(&encode_record(&rec)).expect("parses");
    assert_records_equal(&rec, &back);
}

#[test]
fn empty_payload_round_trips() {
    let rec = InspectRecord {
        id: 9,
        iface: String::new(),
        proto: String::new(),
        src_ip: "?".to_string(),
        dst_ip: "?".to_string(),
        size: 0,
        payload: vec![],
    };
    let back = parse_record(&encode_record(&rec)).expect("parses");
    assert_records_equal(&rec, &back);
}

#[test]
fn every_byte_value_round_trips() {
    let payload: Vec<u8> = (0..=255u8).collect();
    let rec = InspectRecord {
        id: u64::MAX,
        iface: "lo".to_string(),
        proto: "UDP".to_string(),
        src_ip: "127.0.0.1".to_string(),
        dst_ip: "127.0.0.1".to_string(),
        size: 256,
        payload: payload.clone(),
    };
    let back = parse_record(&encode_record(&rec)).expect("parses");
    assert_eq!(back.id, u64::MAX);
    assert_eq!(back.payload, payload);
}

#[test]
fn damaged_lines_do_not_parse() {
    assert!(parse_record("").is_none());
    assert!(parse_record("garbage").is_none());
    assert!(parse_record("id=;if=0:;pr=0:;src=0:;dst=0:;sz=0;pl=").is_none());
    assert!(parse_record("id=1;if=9:ab;pr=0:;src=0:;dst=0:;sz=0;pl=").is_none());
    assert!(parse_record("id=1;if=0:;pr=0:;src=0:;dst=0:;sz=0;pl=0").is_none());
    assert!(parse_record("id=1;if=0:;pr=0:;src=0:;dst=0:;sz=0;pl=zz").is_none());
    assert!(parse_record("id=99999999999999999999;if=0:;pr=0:;src=0:;dst=0:;sz=0;pl=").is_none());
}

#[test]
fn append_then_lookup_returns_the_record() {
    let mut store = Store::new();
    let one = sample_record(1);
    let two = InspectRecord {
        id: 2,
        iface: "wlan0".to_string(),
        proto: "DNS".to_string(),
        src_ip: "10.0.0.9".to_string(),
        dst_ip: "10.0.0.1".to_string(),
        size: 1,
        payload: vec![0xab],
    };
    store.append(&one);
    store.append(&two);
    let got = store.lookup(2).expect("id 2 is stored");
    assert_records_equal(&got, &two);
    let got = store.lookup(1).expect("id 1 is stored");
    assert_records_equal(&got, &one);
}

#[test]
fn lookup_of_absent_id_is_none() {
    let mut store = Store::new();
    store.append(&sample_record(1));
    assert!(store.lookup(2).is_none());
}

#[test]
fn lookup_skips_lines_that_do_not_parse() {
    let mut store = Store::from_lines(vec![
        String::new(),
        "  ".to_string(),
        "not a record".to_string(),
    ]);
    assert!(store.lookup(5).is_none());
    store.append(&sample_record(5));
    let got = store.lookup(5).expect("found past the bad lines");
    assert_eq!(got.id, 5);
}

#[test]
fn reset_forgets_everything() {
    let mut store = Store::new();
    store.append(&sample_record(1));
    store.append(&sample_record(2));
    store.reset();
    for id in 0..10 {
        assert!(store.lookup(id).is_none(), "id {id} must be gone");
    }
}

#[test]
fn lines_written_and_read_back_agree() {
    let mut writer = Store::new();
    let line_a = writer.append(&sample_record(1));
    let line_b = writer.append(&sample_record(2));
    // a later invocation reads the persisted lines back
    let reader = Store::from_lines(vec![line_a, line_b]);
    assert_eq!(reader.lookup(1).expect("id 1").id, 1);
    assert_eq!(reader.lookup(2).expect("id 2").id, 2);
}

#[test]
fn lookup_returns_the_first_of_two_records_with_one_id() {
    let mut store = Store::new();
    let mut first = sample_record(3);
    first.proto = "DNS".to_string();
    let mut second = sample_record(3);
    second.proto = "NTP".to_string();
    store.append(&first);
    store.append(&second);
    let got = store.lookup(3).expect("id 3 is stored");
    assert_eq!(got.proto, "DNS", "the scan stops at the first match");
}
