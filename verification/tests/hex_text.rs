//! Hex parsing and formatting, and byte-string helpers.

use offset_index::bytes::trim;
use offset_index::hex::{parse_hex, to_hex_lower};

#[test]
fn parses_hex_case_insensitively() {
    assert_eq!(parse_hex(b"1A8"), Some(424));
    assert_eq!(parse_hex(b"1a8"), Some(424));
    assert_eq!(parse_hex(b"0"), Some(0));
    assert_eq!(parse_hex(b"ff"), Some(255));
    assert_eq!(parse_hex(b"00ff"), Some(255));
}

#[test]
fn rejects_empty_and_non_hex() {
    assert_eq!(parse_hex(b""), None);
    assert_eq!(parse_hex(b"xyz"), None);
    assert_eq!(parse_hex(b"1a8 "), None);
    assert_eq!(parse_hex(b"-1"), None);
}

#[test]
fn rejects_overflow() {
    // One digit beyond the 64-bit range.
    assert_eq!(parse_hex(b"10000000000000000"), None);
    assert_eq!(parse_hex(b"ffffffffffffffff"), Some(usize::MAX));
}

#[test]
fn formats_lower_case_without_leading_zeros() {
    assert_eq!(to_hex_lower(424), b"1a8".to_vec());
    assert_eq!(to_hex_lower(0), b"0".to_vec());
    assert_eq!(to_hex_lower(255), b"ff".to_vec());
}

#[test]
fn hex_round_trip_on_samples() {
    for n in [0usize, 1, 15, 16, 424, 65535, 123456789] {
        assert_eq!(parse_hex(&to_hex_lower(n)), Some(n));
    }
}

#[test]
fn trims_ascii_whitespace_both_ends() {
    assert_eq!(trim(b"  abc\r\n"), b"abc".as_slice());
    assert_eq!(trim(b"abc"), b"abc".as_slice());
    assert_eq!(trim(b" \t "), b"".as_slice());
    assert_eq!(trim(b""), b"".as_slice());
}
