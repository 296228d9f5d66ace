use heimdall::frame::{append_bytes, put_field};
use heimdall::panels::ThreadsPanel;
use heimdall::status::{Statuses, ThreadStatus, ThreadType};
use heimdall::timestamp::Timestamp;

#[test]
fn append_bytes_appends() {
    let mut out = vec![1u8, 2];
    append_bytes(&mut out, &[3, 4, 5]);
    assert_eq!(out, vec![1, 2, 3, 4, 5]);
    append_bytes(&mut out, &[]);
    assert_eq!(out, vec![1, 2, 3, 4, 5]);
}

#[test]
fn put_field_writes_tag_length_payload() {
    let mut out = vec![0xaau8];
    put_field(&mut out, 9, b"abc");
    assert_eq!(out, vec![0xaa, 9, 3, 0, 0, 0, 0, 0, 0, 0, b'a', b'b', b'c']);
    let mut empty = Vec::new();
    put_field(&mut empty, 0, &[]);
    assert_eq!(empty, vec![0, 0, 0, 0, 0, 0, 0, 0, 0]);
    let mut long = Vec::new();
    put_field(&mut long, 1, &[7u8; 300]);
    assert_eq!(&long[..9], &[1, 44, 1, 0, 0, 0, 0, 0, 0]);
    assert_eq!(long.len(), 309);
}

#[test]
fn timestamp_bytes_are_little_endian() {
    let ts = Timestamp::new(0x0102030405060708, 0x0a0b0c0d, 0x11121314);
    assert_eq!(
        ts.to_bytes(),
        vec![8, 7, 6, 5, 4, 3, 2, 1, 0x0d, 0x0c, 0x0b, 0x0a, 0x14, 0x13, 0x12, 0x11]
    );
    let negative = Timestamp::new(-1, 0, -1);
    assert_eq!(
        negative.to_bytes(),
        vec![255, 255, 255, 255, 255, 255, 255, 255, 0, 0, 0, 0, 255, 255, 255, 255]
    );
}

#[test]
fn timestamp_from_its_bytes() {
    for ts in [
        Timestamp::new(0, 0, 0),
        Timestamp::new(1_700_000_000, 999_999_999, 3600),
        Timestamp::new(-62_135_596_800, 1, -43_200),
        Timestamp::new(i64::MAX, u32::MAX, i32::MAX),
        Timestamp::new(i64::MIN, 0, i32::MIN),
    ] {
        assert_eq!(Timestamp::from_bytes(&ts.to_bytes()), Some(ts));
    }
}

#[test]
fn timestamp_needs_sixteen_bytes() {
    assert_eq!(Timestamp::from_bytes(&[]), None);
    assert_eq!(Timestamp::from_bytes(&[0u8; 15]), None);
    assert_eq!(Timestamp::from_bytes(&[0u8; 17]), None);
    assert_eq!(Timestamp::from_bytes(&[0u8; 16]), Some(Timestamp::new(0, 0, 0)));
}

#[test]
fn threads_panel_is_a_snapshot() {
    let mut statuses = Statuses::new();
    statuses.set(ThreadType::TUI, ThreadStatus::Running);
    statuses.set(ThreadType::NNG, ThreadStatus::Failed("x".to_string()));
    let panel = ThreadsPanel::from(&statuses);
    statuses.terminate_all();
    assert_eq!(
        panel.threads,
        vec![
            (ThreadType::TUI, ThreadStatus::Running),
            (ThreadType::NNG, ThreadStatus::Failed("x".to_string())),
        ]
    );
}
