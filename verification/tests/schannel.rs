use procmon::schannel::{
    filetime_to_unix_nanos, read_utf16_le_until_null, read_wide_string_at_offset, session_name_wide,
    SCHANNEL_EVENT_SNI_ID, SESSION_NAME,
};
use std::time::{Duration, SystemTime};

fn as_system_time(ns: u64) -> SystemTime {
    SystemTime::UNIX_EPOCH + Duration::from_nanos(ns)
}

#[test]
fn read_utf16_ascii_with_null() {
    let mut bytes: Vec<u8> = Vec::new();
    for c in "example.com".encode_utf16() {
        bytes.extend_from_slice(&c.to_le_bytes());
    }
    bytes.extend_from_slice(&[0, 0]);
    assert_eq!(read_utf16_le_until_null(&bytes), "example.com");
}

#[test]
fn read_utf16_without_null_terminator() {
    let mut bytes: Vec<u8> = Vec::new();
    for c in "www.bing.com".encode_utf16() {
        bytes.extend_from_slice(&c.to_le_bytes());
    }
    assert_eq!(read_utf16_le_until_null(&bytes), "www.bing.com");
}

#[test]
fn read_utf16_empty_and_short_inputs() {
    assert_eq!(read_utf16_le_until_null(&[]), "");
    assert_eq!(read_utf16_le_until_null(&[0xAB]), "");
    assert_eq!(read_utf16_le_until_null(&[0, 0]), "");
}

#[test]
fn read_utf16_cjk_code_units() {
    let bytes: Vec<u8> = vec![0x2D, 0x4E, 0x87, 0x65, 0, 0];
    assert_eq!(read_utf16_le_until_null(&bytes), "中文");
}

#[test]
fn read_utf16_stops_at_first_nul_and_ignores_odd_tail() {
    let bytes: Vec<u8> = vec![b'a', 0, b'b', 0, 0, 0, b'c', 0];
    assert_eq!(read_utf16_le_until_null(&bytes), "ab");
    let odd: Vec<u8> = vec![b'x', 0, b'y'];
    assert_eq!(read_utf16_le_until_null(&odd), "x");
}

#[test]
fn read_utf16_lone_surrogate_is_replaced() {
    let bytes: Vec<u8> = vec![0x00, 0xD8, b'z', 0];
    assert_eq!(read_utf16_le_until_null(&bytes), "\u{FFFD}z");
}

#[test]
fn session_name_has_nul_terminator() {
    assert!(SESSION_NAME.ends_with('\0'), "SESSION_NAME 必须含 NUL");
}

#[test]
fn session_name_wide_matches_name() {
    let w = session_name_wide();
    let expected: Vec<u16> = SESSION_NAME.encode_utf16().collect();
    assert_eq!(w, expected);
    assert_eq!(*w.last().unwrap(), 0);
}

#[test]
fn sni_event_id_is_1793() {
    assert_eq!(SCHANNEL_EVENT_SNI_ID, 1793);
}

#[test]
fn filetime_at_unix_epoch_is_zero() {
    let unix_epoch_filetime = 116_444_736_000_000_000i64;
    assert_eq!(as_system_time(filetime_to_unix_nanos(unix_epoch_filetime)), SystemTime::UNIX_EPOCH);
}

#[test]
fn filetime_negative_falls_back_to_unix_epoch() {
    assert_eq!(as_system_time(filetime_to_unix_nanos(-1)), SystemTime::UNIX_EPOCH);
}

#[test]
fn filetime_one_second_after_epoch() {
    assert_eq!(filetime_to_unix_nanos(116_444_736_000_000_000i64 + 10_000_000), 1_000_000_000);
    assert_eq!(filetime_to_unix_nanos(i64::MIN), 0);
    assert_eq!(filetime_to_unix_nanos(i64::MAX), i64::MAX as u64);
}

#[test]
fn read_wide_string_basic() {
    let mut bytes: Vec<u8> = vec![0xFF, 0xFF, 0xFF, 0xFF];
    for c in "Hello World ".encode_utf16() {
        bytes.extend_from_slice(&c.to_le_bytes());
    }
    bytes.extend_from_slice(&[0, 0]);
    assert_eq!(read_wide_string_at_offset(&bytes, 4), "Hello World ");
}

#[test]
fn read_wide_string_offset_out_of_bounds() {
    let bytes: Vec<u8> = vec![0xAB, 0xCD];
    assert_eq!(read_wide_string_at_offset(&bytes, 100), "");
}

#[test]
fn surrogate_pairs_decode_and_lone_surrogates_become_replacement() {
    // "a", U+1F600 as D83D DE00, a lone low surrogate DC00, "b".
    let units: [u16; 5] = [0x0061, 0xD83D, 0xDE00, 0xDC00, 0x0062];
    let bytes: Vec<u8> = units.iter().flat_map(|u| u.to_le_bytes()).collect();
    assert_eq!(read_utf16_le_until_null(&bytes), "a\u{1F600}\u{FFFD}b");
    let lone_high: Vec<u8> = [0xD800u16, 0x0041].iter().flat_map(|u| u.to_le_bytes()).collect();
    assert_eq!(read_utf16_le_until_null(&lone_high), "\u{FFFD}A");
}

#[test]
fn reading_at_an_offset_reads_the_rest_of_the_buffer() {
    let mut buf: Vec<u8> = vec![0xFF, 0xFF, 0xFF, 0xFF];
    for u in "Hello World ".encode_utf16() {
        buf.extend_from_slice(&u.to_le_bytes());
    }
    buf.extend_from_slice(&[0, 0]);
    for offset in 0..buf.len() {
        assert_eq!(read_wide_string_at_offset(&buf, offset), read_utf16_le_until_null(&buf[offset..]));
    }
    assert_eq!(read_wide_string_at_offset(&buf, 4), "Hello World ");
    assert_eq!(read_wide_string_at_offset(&[0xAB, 0xCD], 100), "");
}
