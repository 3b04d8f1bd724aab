use cat_validator::cat::token_bytes;
use cat_validator::error::CatError;
use cat_validator::minting::{expiration_at, test_header_claim};
use cat_validator::text::{compare_strings, contains_text, ends_with, equal_ignoring_ascii_case, starts_with};
use common_access_token::CborValue;

#[test]
fn token_text_decodes_base64url() {
    assert_eq!(token_bytes("AQID_w"), Ok(vec![1, 2, 3, 255]));
    assert_eq!(token_bytes(""), Ok(vec![]));
    assert_eq!(token_bytes("not base64!"), Err(CatError::BadRequest));
}

#[test]
fn expiry_in_hours() {
    assert_eq!(expiration_at(1_000, 2), Some(8_200));
    assert_eq!(expiration_at(u64::MAX - 10, 1), None);
    assert_eq!(expiration_at(0, u64::MAX), None);
}

#[test]
fn test_token_header_claim() {
    let claim = test_header_claim();
    assert_eq!(claim.len(), 2);
    assert!(matches!(claim.get(&1), Some(CborValue::Text(t)) if t == "User-Agent"));
    match claim.get(&2) {
        Some(CborValue::Map(m)) => {
            assert!(matches!(m.get(&1), Some(CborValue::Integer(3))));
            assert!(matches!(m.get(&2), Some(CborValue::Text(t)) if t == "Mozilla"));
        }
        _ => panic!("match map expected"),
    }
}

#[test]
fn string_comparison() {
    assert_eq!(compare_strings("abc", "abd"), -1);
    assert_eq!(compare_strings("abc", "abc"), 0);
    assert_eq!(compare_strings("abcd", "abc"), 1);
    assert_eq!(compare_strings("", "a"), -1);
    assert_eq!(compare_strings("é", "z"), 1);
}

#[test]
fn substring_tests() {
    assert!(starts_with("Mozilla/5.0", "Moz"));
    assert!(!starts_with("Moz", "Mozilla"));
    assert!(ends_with("clip.mp4", ".mp4"));
    assert!(!ends_with("clip.mp4", ".mp3"));
    assert!(contains_text("Mozilla/5.0 curl", "5.0 c"));
    assert!(!contains_text("Mozilla", "zz"));
}

#[test]
fn ascii_case_insensitive_equality() {
    assert!(equal_ignoring_ascii_case("user-AGENT", "User-Agent"));
    assert!(!equal_ignoring_ascii_case("User-Agent2", "User-Agent"));
    assert!(!equal_ignoring_ascii_case("Ä", "ä"));
}
