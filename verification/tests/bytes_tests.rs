//! Tests of the byte-string primitives.

use most_important_deps::bytes::{
    bytes_eq, contains_bytes, ends_with_bytes, find_byte, parse_u64_range, starts_with_bytes,
    u64_to_dec,
};

#[test]
fn find_byte_returns_first_occurrence() {
    let s = b"a b c";
    assert_eq!(find_byte(s, 0, s.len(), b' '), Some(1));
    assert_eq!(find_byte(s, 2, s.len(), b' '), Some(3));
    assert_eq!(find_byte(s, 4, s.len(), b' '), None);
}

#[test]
fn contains_finds_runs() {
    assert!(contains_bytes(b"Failed: see build", b"Failed"));
    assert!(contains_bytes(b"was Cached", b"Cached"));
    assert!(!contains_bytes(b"Succeeded", b"Failed"));
    assert!(contains_bytes(b"anything", b""));
}

#[test]
fn starts_and_ends() {
    assert!(starts_with_bytes(b"build 5", b"build "));
    assert!(!starts_with_bytes(b"rebuild 5", b"build "));
    assert!(ends_with_bytes(b"42.cache", b".cache"));
    assert!(!ends_with_bytes(b"42.cache.new", b".cache"));
    assert!(bytes_eq(b"log", b"log"));
    assert!(!bytes_eq(b"log", b"logs"));
}

#[test]
fn parse_u64_exact_values() {
    let s = b"x 1840 y";
    assert_eq!(parse_u64_range(s, 2, 6), Some(1840));
    assert_eq!(parse_u64_range(s, 0, 1), None);
    assert_eq!(parse_u64_range(s, 2, 2), None);
    assert_eq!(parse_u64_range(b"18446744073709551615", 0, 20), Some(u64::MAX));
    assert_eq!(parse_u64_range(b"18446744073709551616", 0, 20), None);
    assert_eq!(parse_u64_range(b"007", 0, 3), Some(7));
}

#[test]
fn u64_to_dec_round_trips() {
    assert_eq!(u64_to_dec(0), b"0".to_vec());
    assert_eq!(u64_to_dec(42), b"42".to_vec());
    assert_eq!(u64_to_dec(u64::MAX), b"18446744073709551615".to_vec());
}
