use std::collections::BTreeMap;

use cat_validator::cbor::{as_i64, as_match_kind, as_network_address, as_network_addresses, as_string, NetworkAddress};
use cat_validator::claims::{
    normalize_country, country_listed, find_header, CatCountryValidator, CatHeaderValidator, CatNipValidator,
    CatVersionValidator, SyncValidator, Validate, CATGEOISO3166, CATH, CATNIP, CATV,
};
use cat_validator::error::ClaimError;
use cat_validator::matching::MatchKind;
use cat_validator::network::{IpAddress, IpNetwork};
use common_access_token::CborValue;

fn headers(v: &[(&str, &str)]) -> Vec<(String, String)> {
    v.iter().map(|(k, x)| (k.to_string(), x.to_string())).collect()
}

fn match_map(kind: i64, pattern: &str) -> CborValue {
    let mut m = BTreeMap::new();
    m.insert(1, CborValue::Integer(kind));
    m.insert(2, CborValue::Text(pattern.to_string()));
    CborValue::Map(m)
}

fn ua_claim(kind: i64, pattern: &str) -> CborValue {
    let mut m = BTreeMap::new();
    m.insert(1, CborValue::Text("User-Agent".to_string()));
    m.insert(2, match_map(kind, pattern));
    CborValue::Map(m)
}

fn v4(a: u8, b: u8, c: u8, d: u8) -> IpAddress {
    IpAddress::V4(u32::from_be_bytes([a, b, c, d]))
}

#[test]
fn claim_keys_match_token_library() {
    assert_eq!(CATV, common_access_token::cat_keys::CATV);
    assert_eq!(CATNIP, common_access_token::cat_keys::CATNIP);
    assert_eq!(CATH, common_access_token::cat_keys::CATH);
    assert_eq!(CATGEOISO3166, common_access_token::cat_keys::CATGEOISO3166);
    assert_eq!(cat_validator::claims::CATU, common_access_token::cat_keys::CATU);
    assert_eq!(cat_validator::claims::CATM, common_access_token::cat_keys::CATM);
}

#[test]
fn every_validator_accepts_absent_claim() {
    let vs = vec![
        SyncValidator::Version(CatVersionValidator {}),
        SyncValidator::Header(CatHeaderValidator { headers: vec![] }),
        SyncValidator::Nip(CatNipValidator { client_ip: None }),
        SyncValidator::Country(CatCountryValidator { country: "de".to_string() }),
    ];
    for v in &vs {
        assert_eq!(v.validate(None), Ok(()));
    }
    assert_eq!(vs[0].get_claim_key(), CATV);
    assert_eq!(vs[1].get_claim_key(), CATH);
    assert_eq!(vs[2].get_claim_key(), CATNIP);
    assert_eq!(vs[3].get_claim_key(), CATGEOISO3166);
}

#[test]
fn version_accepts_only_one() {
    let v = CatVersionValidator {};
    assert_eq!(v.validate(Some(&CborValue::Integer(1))), Ok(()));
    assert_eq!(v.validate(Some(&CborValue::Integer(2))), Err(ClaimError::InvalidVersion));
    assert_eq!(v.validate(Some(&CborValue::Text("1".to_string()))), Err(ClaimError::InvalidType));
}

#[test]
fn header_exact_match() {
    let claim = ua_claim(0, "Mozilla");
    let chrome = CatHeaderValidator { headers: headers(&[("User-Agent", "Chrome")]) };
    assert_eq!(chrome.validate(Some(&claim)), Err(ClaimError::HeaderValueInvalid));
    let mozilla = CatHeaderValidator { headers: headers(&[("User-Agent", "Mozilla")]) };
    assert_eq!(mozilla.validate(Some(&claim)), Ok(()));
}

#[test]
fn header_name_is_case_sensitive() {
    let claim = ua_claim(0, "Mozilla");
    let v = CatHeaderValidator { headers: headers(&[("user-agent", "Mozilla")]) };
    assert_eq!(v.validate(Some(&claim)), Err(ClaimError::HeaderMissing));
}

#[test]
fn header_presence_only_and_odd_size() {
    let mut m = BTreeMap::new();
    m.insert(1, CborValue::Text("X-Custom".to_string()));
    m.insert(2, CborValue::Null);
    let claim = CborValue::Map(m.clone());
    let present = CatHeaderValidator { headers: headers(&[("X-Custom", "anything")]) };
    let absent = CatHeaderValidator { headers: headers(&[("Other", "x")]) };
    assert_eq!(present.validate(Some(&claim)), Ok(()));
    assert_eq!(absent.validate(Some(&claim)), Err(ClaimError::HeaderMissing));
    m.insert(3, CborValue::Text("Y".to_string()));
    assert_eq!(present.validate(Some(&CborValue::Map(m))), Err(ClaimError::UnexpectedLength));
    assert_eq!(present.validate(Some(&CborValue::Integer(1))), Err(ClaimError::InvalidType));
}

#[test]
fn header_missing_name_key() {
    let mut m = BTreeMap::new();
    m.insert(5, CborValue::Text("X".to_string()));
    m.insert(6, CborValue::Null);
    let v = CatHeaderValidator { headers: headers(&[("X", "1")]) };
    assert_eq!(v.validate(Some(&CborValue::Map(m))), Err(ClaimError::MissingHeaderName));
}

#[test]
fn header_two_pairs_prefix_and_contains() {
    let mut m = BTreeMap::new();
    m.insert(1, CborValue::Text("User-Agent".to_string()));
    m.insert(2, match_map(3, "Mozilla"));
    m.insert(3, CborValue::Text("X-FWF-Custom-Header".to_string()));
    m.insert(4, match_map(1, "Lorem"));
    let claim = CborValue::Map(m);
    let ok = CatHeaderValidator {
        headers: headers(&[("User-Agent", "Mozilla/5.0 curl"), ("X-FWF-Custom-Header", "Lorem ipsum")]),
    };
    assert_eq!(ok.validate(Some(&claim)), Ok(()));
    let bad = CatHeaderValidator {
        headers: headers(&[("User-Agent", "Mozilla/5.0 curl"), ("X-FWF-Custom-Header", "ipsum Lorem")]),
    };
    assert_eq!(bad.validate(Some(&claim)), Err(ClaimError::HeaderValueInvalid));
}

#[test]
fn match_kinds() {
    let v = "Mozilla/5.0 (X11)".to_string();
    assert_eq!(MatchKind::Exact("Mozilla/5.0 (X11)".to_string()).validate(&v), Ok(()));
    assert_eq!(MatchKind::Prefix("Mozilla".to_string()).validate(&v), Ok(()));
    assert_eq!(MatchKind::Prefix("5.0".to_string()).validate(&v), Err(ClaimError::HeaderValueInvalid));
    assert_eq!(MatchKind::Suffix("(X11)".to_string()).validate(&v), Ok(()));
    assert_eq!(MatchKind::Suffix("Mozilla".to_string()).validate(&v), Err(ClaimError::HeaderValueInvalid));
    assert_eq!(MatchKind::Contains("5.0".to_string()).validate(&v), Ok(()));
    assert_eq!(MatchKind::Contains("6.0".to_string()).validate(&v), Err(ClaimError::HeaderValueInvalid));
    assert_eq!(MatchKind::Contains("".to_string()).validate(&v), Ok(()));
}

#[test]
fn regex_match_kind() {
    let v = "Mozilla/5.0".to_string();
    assert_eq!(MatchKind::RegEx("^Moz.*[0-9]$".to_string()).validate(&v), Ok(()));
    assert_eq!(MatchKind::RegEx("^Chrome".to_string()).validate(&v), Err(ClaimError::HeaderValueInvalid));
    assert_eq!(MatchKind::RegEx("(".to_string()).validate(&v), Err(ClaimError::HeaderValueInvalid));
}

#[test]
fn match_kind_projection() {
    assert!(matches!(as_match_kind(&match_map(0, "a")), Some(MatchKind::Exact(p)) if p == "a"));
    assert!(matches!(as_match_kind(&match_map(4, "b")), Some(MatchKind::RegEx(p)) if p == "b"));
    assert!(as_match_kind(&match_map(5, "c")).is_none());
    assert!(as_match_kind(&CborValue::Text("x".to_string())).is_none());
    assert_eq!(as_string(&CborValue::Text("x".to_string())), Some("x".to_string()));
    assert_eq!(as_i64(&CborValue::Integer(-4)), Some(-4));
    assert_eq!(as_i64(&CborValue::Null), None);
}

#[test]
fn geo_is_case_and_space_insensitive() {
    let claim = CborValue::Array(vec![CborValue::Text(" de ".to_string()), CborValue::Text("AT".to_string())]);
    let de = CatCountryValidator { country: "De".to_string() };
    assert_eq!(de.validate(Some(&claim)), Ok(()));
    let fr = CatCountryValidator { country: "fr".to_string() };
    assert_eq!(fr.validate(Some(&claim)), Err(ClaimError::CountryNotGranted));
    assert_eq!(fr.validate(Some(&CborValue::Array(vec![]))), Ok(()));
    assert_eq!(fr.validate(Some(&CborValue::Text("FR".to_string()))), Err(ClaimError::InvalidType));
}

#[test]
fn country_normalisation() {
    assert_eq!(normalize_country("  at\t"), "AT".to_string());
    let allowed = vec!["DE".to_string(), "AT".to_string()];
    assert!(country_listed(&allowed, &"AT".to_string()));
    assert!(!country_listed(&allowed, &"at".to_string()));
}

#[test]
fn header_lookup_first_match() {
    let h = headers(&[("A", "1"), ("B", "2"), ("A", "3")]);
    assert_eq!(find_header(&h, &"A".to_string()), Some(&"1".to_string()));
    assert_eq!(find_header(&h, &"C".to_string()), None);
}

#[test]
fn network_address_projections() {
    assert_eq!(
        as_network_address(&CborValue::Bytes(vec![192, 0, 2, 1])),
        Some(NetworkAddress::IPv4(0xc000_0201))
    );
    let mut v6 = vec![0u8; 16];
    v6[0] = 0x20;
    v6[1] = 0x01;
    v6[15] = 1;
    assert_eq!(
        as_network_address(&CborValue::Bytes(v6)),
        Some(NetworkAddress::IPv6(0x2001_0000_0000_0000_0000_0000_0000_0001))
    );
    let prefix = CborValue::Array(vec![CborValue::Integer(24), CborValue::Bytes(vec![192, 0, 2])]);
    assert_eq!(
        as_network_address(&prefix),
        Some(NetworkAddress::IPv4Prefix(IpNetwork::V4 { addr: 0xc000_0200, prefix_len: 24 }))
    );
    let prefix6 = CborValue::Array(vec![CborValue::Integer(32), CborValue::Bytes(vec![0x20, 0x01, 0x0d, 0xb8, 0])]);
    assert_eq!(
        as_network_address(&prefix6),
        Some(NetworkAddress::IPv6Prefix(IpNetwork::V6 { addr: 0x2001_0db8_u128 << 96, prefix_len: 32 }))
    );
    let too_long = CborValue::Array(vec![CborValue::Integer(40), CborValue::Bytes(vec![10])]);
    assert_eq!(as_network_address(&too_long), None);
    let wrapped = CborValue::Array(vec![CborValue::Integer(256 + 8), CborValue::Bytes(vec![10])]);
    assert_eq!(as_network_address(&wrapped), None);
    let negative = CborValue::Array(vec![CborValue::Integer(-1), CborValue::Bytes(vec![10])]);
    assert_eq!(as_network_address(&negative), None);
    assert_eq!(as_network_address(&CborValue::Integer(64500)), Some(NetworkAddress::ASN(64500)));
    assert_eq!(as_network_address(&CborValue::Integer(-1)), None);
    assert_eq!(as_network_address(&CborValue::Bytes(vec![1, 2, 3])), None);
    let list = CborValue::Array(vec![CborValue::Bytes(vec![1, 2, 3, 4]), CborValue::Null]);
    assert_eq!(as_network_addresses(&list), Some(vec![NetworkAddress::IPv4(0x0102_0304)]));
    assert_eq!(as_network_addresses(&CborValue::Null), None);
}

#[test]
fn nip_membership() {
    let claim = CborValue::Array(vec![
        CborValue::Array(vec![CborValue::Integer(24), CborValue::Bytes(vec![192, 0, 2])]),
        CborValue::Bytes(vec![127, 0, 0, 1]),
    ]);
    let inside = CatNipValidator { client_ip: Some(v4(192, 0, 2, 77)) };
    assert_eq!(inside.validate(Some(&claim)), Ok(()));
    let local = CatNipValidator { client_ip: Some(v4(127, 0, 0, 1)) };
    assert_eq!(local.validate(Some(&claim)), Ok(()));
    let outside = CatNipValidator { client_ip: Some(v4(198, 51, 100, 1)) };
    assert_eq!(outside.validate(Some(&claim)), Err(ClaimError::IpNotAllowed));
    let unparsed = CatNipValidator { client_ip: None };
    assert_eq!(unparsed.validate(Some(&claim)), Err(ClaimError::InvalidClientIp));
    assert_eq!(unparsed.validate(Some(&CborValue::Array(vec![]))), Err(ClaimError::InvalidClientIp));
    assert_eq!(inside.validate(Some(&CborValue::Array(vec![]))), Ok(()));
    assert_eq!(inside.validate(Some(&CborValue::Bytes(vec![192, 0, 2, 77]))), Err(ClaimError::InvalidType));
    let asn_only = CborValue::Array(vec![CborValue::Integer(64500)]);
    assert_eq!(inside.validate(Some(&asn_only)), Err(ClaimError::IpNotAllowed));
}
