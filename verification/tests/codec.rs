use scabbard::batch::{BatchStatus, TransactionResult};
use scabbard::changes::{StateChange, StateChangeEvent};
use scabbard::hexcode::{parse_hex, to_hex};
use scabbard::settings::{encode_setting, genesis_change, join_keys};

#[test]
fn to_hex_renders_lowercase_pairs() {
    assert_eq!(to_hex(&vec![]), "");
    assert_eq!(to_hex(&vec![0x00, 0xff, 0x10]), "00ff10");
    assert_eq!(to_hex(&vec![0xab, 0xcd]), "abcd");
}

#[test]
fn parse_hex_accepts_both_cases() {
    assert_eq!(parse_hex("00ff10").unwrap(), vec![0x00, 0xff, 0x10]);
    assert_eq!(parse_hex("ABCD").unwrap(), vec![0xab, 0xcd]);
    assert_eq!(parse_hex("").unwrap(), Vec::<u8>::new());
}

#[test]
fn parse_hex_rejects_odd_length() {
    assert!(parse_hex("abc").is_err());
}

#[test]
fn parse_hex_rejects_non_digits() {
    assert!(parse_hex("0g").is_err());
    assert!(parse_hex("zz").is_err());
}

#[test]
fn hex_round_trip() {
    let bytes = vec![0u8, 1, 2, 127, 128, 254, 255];
    let rendered = to_hex(&bytes);
    assert_eq!(parse_hex(rendered.as_str()).unwrap(), bytes);
}

#[test]
fn setting_bytes_are_exact() {
    // Outer: entries field (tag 0x0a), length 6.
    // Entry: key field (0x0a) "k", value field (0x12) "v".
    assert_eq!(
        encode_setting("k", "v"),
        vec![0x0a, 6, 0x0a, 1, b'k', 0x12, 1, b'v']
    );
}

#[test]
fn setting_omits_empty_value() {
    assert_eq!(encode_setting("k", ""), vec![0x0a, 3, 0x0a, 1, b'k']);
}

#[test]
fn setting_parses_with_a_real_protobuf_reader() {
    let keys = vec![String::from("012345"), String::from("6789ab")];
    let joined = join_keys(&keys);
    assert_eq!(joined, "012345,6789ab");

    let bytes = encode_setting("sawtooth.swa.administrators", joined.as_str());
    let mut outer = protobuf::CodedInputStream::from_bytes(&bytes);
    assert_eq!(outer.read_raw_varint32().unwrap(), 0x0a);
    let entry = outer.read_bytes().unwrap();
    assert!(outer.eof().unwrap());

    let mut inner = protobuf::CodedInputStream::from_bytes(&entry);
    assert_eq!(inner.read_raw_varint32().unwrap(), 0x0a);
    assert_eq!(inner.read_string().unwrap(), "sawtooth.swa.administrators");
    assert_eq!(inner.read_raw_varint32().unwrap(), 0x12);
    assert_eq!(inner.read_string().unwrap(), "012345,6789ab");
    assert!(inner.eof().unwrap());
}

#[test]
fn varint_length_prefix_for_long_payloads() {
    // A payload longer than 127 bytes needs a two-byte varint length.
    let long_value = "x".repeat(200);
    let bytes = encode_setting("k", long_value.as_str());
    let mut outer = protobuf::CodedInputStream::from_bytes(&bytes);
    assert_eq!(outer.read_raw_varint32().unwrap(), 0x0a);
    let entry = outer.read_bytes().unwrap();
    let mut inner = protobuf::CodedInputStream::from_bytes(&entry);
    assert_eq!(inner.read_raw_varint32().unwrap(), 0x0a);
    assert_eq!(inner.read_string().unwrap(), "k");
    assert_eq!(inner.read_raw_varint32().unwrap(), 0x12);
    assert_eq!(inner.read_string().unwrap(), long_value);
}

#[test]
fn genesis_change_sets_the_admin_entry() {
    let keys = vec![String::from("aa"), String::from("bb")];
    let change = genesis_change("000000a87c", "sawtooth.swa.administrators", &keys);
    match change {
        StateChange::Put { key, value } => {
            assert_eq!(key, "000000a87c");
            assert_eq!(value, encode_setting("sawtooth.swa.administrators", "aa,bb"));
        }
        _ => panic!("genesis change must set the admin entry"),
    }
}

#[test]
fn status_from_results_collects_all_failures() {
    let results = vec![
        TransactionResult::Invalid {
            transaction_id: String::from("t1"),
            error_message: String::from("first"),
            error_data: vec![1],
        },
        TransactionResult::Valid {
            transaction_id: String::from("t2"),
            state_changes: vec![],
        },
        TransactionResult::Invalid {
            transaction_id: String::from("t3"),
            error_message: String::from("second"),
            error_data: vec![2],
        },
    ];
    match BatchStatus::from_results(&results) {
        BatchStatus::Invalid(records) => {
            assert_eq!(records.len(), 2);
            assert_eq!(records[0].transaction_id, "t1");
            assert_eq!(records[0].error_message, "first");
            assert_eq!(records[1].transaction_id, "t3");
            assert_eq!(records[1].error_message, "second");
        }
        _ => panic!("status must be Invalid"),
    }
}

#[test]
fn status_from_results_keeps_every_id_when_valid() {
    let results = vec![
        TransactionResult::Valid {
            transaction_id: String::from("t1"),
            state_changes: vec![],
        },
        TransactionResult::Valid {
            transaction_id: String::from("t2"),
            state_changes: vec![],
        },
    ];
    match BatchStatus::from_results(&results) {
        BatchStatus::Valid(txns) => {
            assert_eq!(txns.len(), 2);
            assert_eq!(txns[0].transaction_id, "t1");
            assert_eq!(txns[1].transaction_id, "t2");
        }
        _ => panic!("status must be Valid"),
    }
}

#[test]
fn events_mirror_changes_in_order() {
    let changes = vec![
        StateChange::Put { key: String::from("a"), value: vec![1] },
        StateChange::Put { key: String::from("a"), value: vec![2] },
        StateChange::Delete { key: String::from("b") },
    ];
    let events = StateChangeEvent::from_state_changes(changes);
    assert_eq!(events.len(), 3);
    assert!(matches!(&events[0], StateChangeEvent::Put { key, value } if key == "a" && *value == vec![1]));
    assert!(matches!(&events[1], StateChangeEvent::Put { key, value } if key == "a" && *value == vec![2]));
    assert!(matches!(&events[2], StateChangeEvent::Delete { key } if key == "b"));
}
