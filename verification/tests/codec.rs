use heimdall::codec::DecodeError;
use heimdall::log::{RsContext, RsLog, RsVar};
use heimdall::timestamp::Timestamp;

fn context() -> RsContext {
    RsContext {
        app: "collector".to_string(),
        pid: 4242,
        os: "Linux 6.1".to_string(),
        version: "1.2.3".to_string(),
    }
}

fn sample(vars: Vec<(String, String)>) -> RsLog {
    RsLog::new(
        Timestamp::new(1_700_000_000, 123_456_789, 3600),
        "disk almost full".to_string(),
        context(),
        vars,
    )
}

#[test]
fn decode_of_encode_gives_the_record_back() {
    let vars = vec![
        ("path".to_string(), "/var/log".to_string()),
        ("free".to_string(), "3%".to_string()),
        ("path".to_string(), "again".to_string()),
    ];
    let buf = sample(vars.clone()).build();
    let back = RsLog::from(&buf, String::new()).unwrap();
    assert_eq!(back, sample(vars));
}

#[test]
fn decode_of_encode_with_no_vars() {
    let buf = sample(Vec::new()).build();
    let back = RsLog::from(&buf, String::new()).unwrap();
    assert_eq!(back, sample(Vec::new()));
    assert!(back.vars.is_empty());
}

#[test]
fn decode_keeps_text_outside_ascii() {
    let log = RsLog::new(
        Timestamp::new(-1, 0, -7200),
        "größe → 10 µs ✓ 🚀".to_string(),
        context(),
        vec![("ключ".to_string(), "值".to_string())],
    );
    let buf = log.clone().build();
    assert_eq!(RsLog::from(&buf, String::new()).unwrap(), log);
}

#[test]
fn decode_fills_in_the_sender_address() {
    let buf = sample(Vec::new()).build();
    let back = RsLog::from(&buf, "tcp://10.0.0.7:5555".to_string()).unwrap();
    assert_eq!(back.ip, "tcp://10.0.0.7:5555");
    assert_eq!(back.msg, "disk almost full");
    assert_eq!(back.context, context());
}

#[test]
fn encode_lays_out_magic_then_fields() {
    let log = RsLog::new(
        Timestamp::new(1, 2, 3),
        "a".to_string(),
        RsContext { app: String::new(), pid: 258, os: String::new(), version: String::new() },
        vec![("k".to_string(), "vw".to_string())],
    );
    let mut want: Vec<u8> = vec![0x48, 0x4d, 0x44, 0x4c];
    // timestamp
    want.extend([1u8, 16, 0, 0, 0, 0, 0, 0, 0]);
    want.extend([1u8, 0, 0, 0, 0, 0, 0, 0, 2, 0, 0, 0, 3, 0, 0, 0]);
    // message
    want.extend([2u8, 1, 0, 0, 0, 0, 0, 0, 0, b'a']);
    // app
    want.extend([3u8, 0, 0, 0, 0, 0, 0, 0, 0]);
    // pid
    want.extend([4u8, 4, 0, 0, 0, 0, 0, 0, 0, 2, 1, 0, 0]);
    // os, version
    want.extend([5u8, 0, 0, 0, 0, 0, 0, 0, 0]);
    want.extend([6u8, 0, 0, 0, 0, 0, 0, 0, 0]);
    // one variable: key length, key, value
    want.extend([7u8, 11, 0, 0, 0, 0, 0, 0, 0]);
    want.extend([1u8, 0, 0, 0, 0, 0, 0, 0, b'k', b'v', b'w']);
    assert_eq!(log.build(), want);
}

#[test]
fn negative_seconds_and_offset_survive() {
    let log = RsLog::new(Timestamp::new(i64::MIN, u32::MAX, i32::MIN), String::new(), context(), Vec::new());
    let back = RsLog::from(&log.clone().build(), String::new()).unwrap();
    assert_eq!(back.ts, Timestamp::new(i64::MIN, u32::MAX, i32::MIN));
}

fn header(tag: u8, len: u64) -> Vec<u8> {
    let mut out = vec![tag];
    out.extend(len.to_le_bytes());
    out
}

fn with_timestamp() -> Vec<u8> {
    let mut buf = vec![0x48, 0x4d, 0x44, 0x4c];
    buf.extend(header(1, 16));
    buf.extend([0u8; 16]);
    buf
}

#[test]
fn absent_fields_take_their_defaults() {
    let back = RsLog::from(&with_timestamp(), String::new()).unwrap();
    assert_eq!(back.ts, Timestamp::new(0, 0, 0));
    assert_eq!(back.msg, "");
    assert_eq!(back.context.app, "");
    assert_eq!(back.context.pid, 0);
    assert_eq!(back.context.os, "");
    assert_eq!(back.context.version, "");
    assert!(back.vars.is_empty());
}

#[test]
fn unknown_fields_are_passed_over() {
    let mut buf = vec![0x48, 0x4d, 0x44, 0x4c];
    buf.extend(header(200, 3));
    buf.extend([9u8, 9, 9]);
    buf.extend(header(1, 16));
    buf.extend([0u8; 16]);
    buf.extend(header(2, 2));
    buf.extend(*b"hi");
    buf.extend(header(99, 0));
    let back = RsLog::from(&buf, String::new()).unwrap();
    assert_eq!(back.msg, "hi");
}

#[test]
fn first_of_repeated_fields_counts() {
    let mut buf = with_timestamp();
    buf.extend(header(2, 1));
    buf.extend(*b"x");
    buf.extend(header(2, 1));
    buf.extend(*b"y");
    assert_eq!(RsLog::from(&buf, String::new()).unwrap().msg, "x");
}

#[test]
fn empty_buffer_is_rejected() {
    assert_eq!(RsLog::from(&[], String::new()), Err(DecodeError::BadMagic));
}

#[test]
fn wrong_magic_is_rejected() {
    let mut buf = with_timestamp();
    buf[3] = 0;
    assert_eq!(RsLog::from(&buf, String::new()), Err(DecodeError::BadMagic));
    assert_eq!(RsLog::from(&[0x48, 0x4d, 0x44], String::new()), Err(DecodeError::BadMagic));
}

#[test]
fn cut_header_is_rejected() {
    let mut buf = with_timestamp();
    buf.extend([2u8, 1, 0, 0]);
    assert_eq!(RsLog::from(&buf, String::new()), Err(DecodeError::Truncated));
}

#[test]
fn cut_payload_is_rejected() {
    let mut buf = with_timestamp();
    buf.extend(header(2, 5));
    buf.extend(*b"abcd");
    assert_eq!(RsLog::from(&buf, String::new()), Err(DecodeError::Truncated));
    let mut huge = with_timestamp();
    huge.extend(header(2, u64::MAX));
    assert_eq!(RsLog::from(&huge, String::new()), Err(DecodeError::Truncated));
}

#[test]
fn every_prefix_of_a_buffer_decodes_or_fails_cleanly() {
    let buf = sample(vec![("k".to_string(), "v".to_string())]).build();
    for cut in 0..buf.len() {
        let r = RsLog::from(&buf[..cut], String::new());
        if let Ok(log) = r {
            // a prefix that ends on a field boundary is a record with fewer fields
            assert_eq!(log.ts, Timestamp::new(1_700_000_000, 123_456_789, 3600));
        }
    }
    assert!(RsLog::from(&buf, String::new()).is_ok());
}

#[test]
fn missing_timestamp_is_rejected() {
    let mut buf = vec![0x48, 0x4d, 0x44, 0x4c];
    assert_eq!(RsLog::from(&buf, String::new()), Err(DecodeError::MissingTimestamp));
    buf.extend(header(2, 2));
    buf.extend(*b"hi");
    assert_eq!(RsLog::from(&buf, String::new()), Err(DecodeError::MissingTimestamp));
}

#[test]
fn timestamp_of_wrong_size_is_rejected() {
    let mut buf = vec![0x48, 0x4d, 0x44, 0x4c];
    buf.extend(header(1, 8));
    buf.extend([0u8; 8]);
    assert_eq!(RsLog::from(&buf, String::new()), Err(DecodeError::BadTimestamp));
}

#[test]
fn text_that_is_not_utf8_is_rejected() {
    let mut buf = with_timestamp();
    buf.extend(header(2, 2));
    buf.extend([0xffu8, 0xfe]);
    assert_eq!(RsLog::from(&buf, String::new()), Err(DecodeError::BadText));
    let mut os = with_timestamp();
    os.extend(header(5, 1));
    os.extend([0x80u8]);
    assert_eq!(RsLog::from(&os, String::new()), Err(DecodeError::BadText));
}

#[test]
fn pid_of_wrong_size_is_rejected() {
    let mut buf = with_timestamp();
    buf.extend(header(4, 2));
    buf.extend([1u8, 0]);
    assert_eq!(RsLog::from(&buf, String::new()), Err(DecodeError::BadPid));
}

#[test]
fn broken_variable_is_rejected() {
    let mut short = with_timestamp();
    short.extend(header(7, 3));
    short.extend([0u8, 0, 0]);
    assert_eq!(RsLog::from(&short, String::new()), Err(DecodeError::BadVar));

    let mut long_key = with_timestamp();
    long_key.extend(header(7, 9));
    long_key.extend(5u64.to_le_bytes());
    long_key.extend(*b"k");
    assert_eq!(RsLog::from(&long_key, String::new()), Err(DecodeError::BadVar));

    let mut bad_value = with_timestamp();
    bad_value.extend(header(7, 10));
    bad_value.extend(1u64.to_le_bytes());
    bad_value.extend([b'k', 0xc0]);
    assert_eq!(RsLog::from(&bad_value, String::new()), Err(DecodeError::BadVar));
}

#[test]
fn errors_come_in_field_order() {
    // both the message and a variable are broken: the message is reported
    let mut buf = with_timestamp();
    buf.extend(header(7, 0));
    buf.extend(header(2, 1));
    buf.extend([0xffu8]);
    assert_eq!(RsLog::from(&buf, String::new()), Err(DecodeError::BadText));
}

#[test]
fn new_record_has_no_sender_and_keeps_var_order() {
    let log = sample(vec![
        ("b".to_string(), "2".to_string()),
        ("a".to_string(), "1".to_string()),
    ]);
    assert_eq!(log.ip, "");
    assert_eq!(
        log.vars,
        vec![
            RsVar { key: "b".to_string(), val: "2".to_string() },
            RsVar { key: "a".to_string(), val: "1".to_string() },
        ]
    );
}
