use chos_lib::str::{from_cstring_utf8, from_cstring_utf8_bounded, strlen, strlen_bounded, BoundedError};

#[test]
fn strlen_stops_at_first_zero() {
    assert_eq!(strlen(b"abc\0def\0"), 3);
    assert_eq!(strlen(b"\0"), 0);
    assert_eq!(strlen_bounded(b"abcd\0", 3), Some(4));
    assert_eq!(strlen_bounded(b"abcde\0", 3), None);
}

#[test]
fn cstring_utf8() {
    assert_eq!(from_cstring_utf8(b"h\xc3\xa9\0x").ok(), Some("h\u{e9}"));
    assert!(from_cstring_utf8(b"h\xc3\0").is_err());
    assert_eq!(from_cstring_utf8_bounded(b"ok\0", 8).ok(), Some("ok"));
    assert!(matches!(from_cstring_utf8_bounded(b"toolong\0", 2), Err(BoundedError::BoundError)));
    assert!(matches!(from_cstring_utf8_bounded(b"\xff\0", 8), Err(BoundedError::Utf8Error(_))));
}
