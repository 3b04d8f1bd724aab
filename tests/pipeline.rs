use std::collections::BTreeMap;

use cat_validator::cat::{Cat, CatValidationOptions};
use cat_validator::claims::CATGEOISO3166;
use cat_validator::error::{BlockReason, CatError, ClaimError, RejectedClaim};
use cat_validator::cat::token_bytes;
use cat_validator::minting::{generate_test_token, test_token_claims};
use cat_validator::models::{validate_by_default, GenerateTokenRequestModel, ValidateTokenRequestModel};
use cat_validator::network::IpAddress;
use cat_validator::persistence::{BlockedClaimType, BlockedData, Persistence};
use common_access_token::{
    cat_keys, catm, catu, catv, current_timestamp, uri_components, Algorithm, CborValue, KeyId,
    RegisteredClaims, TokenBuilder,
};

const KEY: &str = "test-signing-key";

fn mint(key: &str, subject: &str, countries: &[&str], exp_offset: i64) -> Vec<u8> {
    let now = current_timestamp();
    let mut catu_components = BTreeMap::new();
    catu_components.insert(uri_components::SCHEME, catu::exact_match("https"));
    catu_components.insert(uri_components::HOST, catu::exact_match("my-streaming.api"));
    catu_components.insert(uri_components::PATH, catu::prefix_match("/media"));
    catu_components.insert(uri_components::EXTENSION, catu::exact_match(".mp4"));
    let mut ua_map = BTreeMap::new();
    ua_map.insert(1, CborValue::Integer(3));
    ua_map.insert(2, CborValue::Text("Mozilla".to_string()));
    let mut cath = BTreeMap::new();
    cath.insert(1, CborValue::Text("User-Agent".to_string()));
    cath.insert(2, CborValue::Map(ua_map));
    let exp = (now as i64 + exp_offset) as u64;
    let token = TokenBuilder::new()
        .algorithm(Algorithm::HmacSha256)
        .protected_key_id(KeyId::string("my-key-id"))
        .registered_claims(
            RegisteredClaims::new()
                .with_issuer("iss-1")
                .with_subject(subject)
                .with_audience("aud-1")
                .with_expiration(exp)
                .with_not_before(now - 10)
                .with_issued_at(now - 10)
                .with_cti(b"token-1".to_vec()),
        )
        .custom_cbor(cat_keys::CATV, catv::create())
        .custom_cbor(cat_keys::CATU, catu::create(catu_components))
        .custom_array(cat_keys::CATM, catm::create(vec!["GET"]))
        .custom_array(cat_keys::CATGEOISO3166, catm::create(countries.to_vec()))
        .custom_map(cat_keys::CATH, cath)
        .sign(key.as_bytes())
        .unwrap();
    token.to_bytes().unwrap()
}

fn request(country: &str, user_agent: &str) -> ValidateTokenRequestModel {
    ValidateTokenRequestModel {
        token: String::new(),
        url: "https://my-streaming.api/media/clip.mp4".to_string(),
        method: "get".to_string(),
        issuer: "iss-1".to_string(),
        headers: vec![("User-Agent".to_string(), user_agent.to_string())],
        validate_not_before: validate_by_default(),
        validate_expiration: validate_by_default(),
        audience: Some("aud-1".to_string()),
        client_ip: Some(IpAddress::V4(0x7f00_0001)),
        country: Some(country.to_string()),
    }
}

fn full(country: &str) -> CatValidationOptions {
    request(country, "Mozilla/5.0 curl").into_validation_options()
}

#[test]
fn minted_token_validates() {
    let bytes = mint(KEY, "s-1", &["DE", "AT"], 3600);
    let cat = Cat::new(KEY);
    assert_eq!(cat.validate(&bytes, &full("de"), Some(BlockedData::new())), Ok(()));
    let simple = request("de", "Mozilla/5.0 curl").into_non_kv_validation_options();
    assert_eq!(cat.validate(&bytes, &simple, None), Ok(()));
}

#[test]
fn foreign_country_rejected_by_geo_claim() {
    let bytes = mint(KEY, "s-1", &["DE", "AT"], 3600);
    let r = Cat::new(KEY).validate(&bytes, &full("fr"), None);
    assert_eq!(r, Err(CatError::ValidatorFailure { claim: CATGEOISO3166, error: ClaimError::CountryNotGranted }));
}

#[test]
fn garbage_does_not_decode() {
    let r = Cat::new(KEY).validate(&[1, 2, 3], &full("de"), None);
    assert_eq!(r, Err(CatError::TokenDecode));
}

#[test]
fn wrong_key_fails_signature() {
    let bytes = mint("another-key", "s-1", &["DE"], 3600);
    let r = Cat::new(KEY).validate(&bytes, &full("de"), None);
    assert_eq!(r, Err(CatError::SignatureInvalid));
}

#[test]
fn flipped_signature_byte_fails_signature() {
    let mut bytes = mint(KEY, "s-1", &["DE"], 3600);
    let last = bytes.len() - 1;
    bytes[last] ^= 0x01;
    let r = Cat::new(KEY).validate(&bytes, &full("de"), None);
    assert_eq!(r, Err(CatError::SignatureInvalid));
}

#[test]
fn flipped_claim_byte_fails_signature() {
    let bytes = mint(KEY, "s-1", &["DE"], 3600);
    let pos = bytes.windows(5).position(|w| w == b"iss-1").unwrap();
    let mut tampered = bytes.clone();
    tampered[pos + 4] = b'2';
    let r = Cat::new(KEY).validate(&tampered, &full("de"), None);
    assert_eq!(r, Err(CatError::SignatureInvalid));
}

#[test]
fn blocked_subject_refused() {
    let bytes = mint(KEY, "s-1", &["DE"], -3600);
    let mut data = BlockedData::new();
    Persistence::add_items_to_blocklist(&mut data, BlockedClaimType::Subject, vec!["s-1".to_string()]);
    let r = Cat::new(KEY).validate(&bytes, &full("de"), Some(data));
    assert_eq!(r, Err(CatError::Blocked(BlockReason::Subject)));
}

#[test]
fn skipping_denylist_passes_blocked_subject() {
    let bytes = mint(KEY, "s-1", &["DE"], 3600);
    let mut data = BlockedData::new();
    Persistence::add_items_to_blocklist(&mut data, BlockedClaimType::Subject, vec!["s-1".to_string()]);
    let simple = request("de", "Mozilla/5.0 curl").into_non_kv_validation_options();
    assert_eq!(Cat::new(KEY).validate(&bytes, &simple, Some(data)), Ok(()));
}

#[test]
fn blocked_country_and_user_agent_and_ip() {
    let bytes = mint(KEY, "s-1", &["DE"], 3600);
    let cat = Cat::new(KEY);
    let mut data = BlockedData::new();
    Persistence::add_items_to_blocklist(&mut data, BlockedClaimType::Country, vec!["de".to_string()]);
    assert_eq!(cat.validate(&bytes, &full("de"), Some(data)), Err(CatError::Blocked(BlockReason::Country)));
    let mut data = BlockedData::new();
    Persistence::add_items_to_blocklist(&mut data, BlockedClaimType::UserAgent, vec!["Mozilla/5.0 curl".to_string()]);
    assert_eq!(cat.validate(&bytes, &full("de"), Some(data)), Err(CatError::Blocked(BlockReason::UserAgent)));
    let mut data = BlockedData::new();
    Persistence::add_items_to_blocklist(&mut data, BlockedClaimType::Cidr, vec!["127.0.0.0/8".to_string()]);
    assert_eq!(cat.validate(&bytes, &full("de"), Some(data)), Err(CatError::Blocked(BlockReason::Ip)));
}

#[test]
fn asn_cidrs_block_when_enabled() {
    let bytes = mint(KEY, "s-1", &["DE"], 3600);
    let cat = Cat::new(KEY);
    let mut data = BlockedData::new();
    Persistence::add_asns_to_blocklist(
        &mut data,
        vec![cat_validator::persistence::Asn { asn: 64500, cidrs: vec!["127.0.0.0/8".to_string()] }],
    );
    let mut opts = full("de");
    assert_eq!(cat.validate(&bytes, &opts, Some(BlockedData::new())), Ok(()));
    opts.check_asn_cidrs = true;
    let mut copy = BlockedData::new();
    Persistence::add_asns_to_blocklist(
        &mut copy,
        vec![cat_validator::persistence::Asn { asn: 64500, cidrs: vec!["127.0.0.0/8".to_string()] }],
    );
    assert_eq!(cat.validate(&bytes, &opts, Some(copy)), Err(CatError::Blocked(BlockReason::Ip)));
    opts.check_asn_cidrs = false;
    assert_eq!(cat.validate(&bytes, &opts, Some(data)), Ok(()));
}

#[test]
fn expired_token_rejected_unless_expiry_skipped() {
    let bytes = mint(KEY, "s-1", &["DE"], -3600);
    let cat = Cat::new(KEY);
    assert_eq!(cat.validate(&bytes, &full("de"), None), Err(CatError::ClaimRejected(RejectedClaim::Expiration)));
    let mut req = request("de", "Mozilla/5.0 curl");
    req.validate_expiration = Some(false);
    assert_eq!(cat.validate(&bytes, &req.into_validation_options(), None), Ok(()));
}

#[test]
fn wrong_issuer_and_method_rejected() {
    let bytes = mint(KEY, "s-1", &["DE"], 3600);
    let cat = Cat::new(KEY);
    let mut req = request("de", "Mozilla/5.0 curl");
    req.issuer = "other".to_string();
    assert_eq!(
        cat.validate(&bytes, &req.into_validation_options(), None),
        Err(CatError::ClaimRejected(RejectedClaim::Issuer))
    );
    let mut req = request("de", "Mozilla/5.0 curl");
    req.method = "POST".to_string();
    assert_eq!(
        cat.validate(&bytes, &req.into_validation_options(), None),
        Err(CatError::ClaimRejected(RejectedClaim::Method))
    );
    let mut req = request("de", "Mozilla/5.0 curl");
    req.url = "https://my-streaming.api/other/clip.mp4".to_string();
    assert_eq!(
        cat.validate(&bytes, &req.into_validation_options(), None),
        Err(CatError::ClaimRejected(RejectedClaim::Uri))
    );
    let mut req = request("de", "Mozilla/5.0 curl");
    req.audience = Some("aud-2".to_string());
    assert_eq!(
        cat.validate(&bytes, &req.into_validation_options(), None),
        Err(CatError::ClaimRejected(RejectedClaim::Audience))
    );
}

#[test]
fn header_claim_checked_in_pipeline() {
    let bytes = mint(KEY, "s-1", &["DE"], 3600);
    let cat = Cat::new(KEY);
    let opts = request("de", "Chrome").into_validation_options();
    assert_eq!(
        cat.validate(&bytes, &opts, None),
        Err(CatError::ValidatorFailure { claim: cat_keys::CATH, error: ClaimError::HeaderValueInvalid })
    );
}

#[test]
fn options_from_request() {
    let mut req = request("de", "ua");
    req.headers = vec![("x".to_string(), "1".to_string()), ("user-AGENT".to_string(), "ua-2".to_string())];
    req.validate_not_before = None;
    let opts = req.into_non_kv_validation_options();
    assert_eq!(opts.user_agent, Some("ua-2".to_string()));
    assert!(opts.skip_kv_validations);
    assert!(opts.validate_not_before);
    assert_eq!(opts.country, Some("de".to_string()));
    assert_eq!(opts.sync_validators.len(), 4);
    let mut req = request("de", "ua");
    req.country = None;
    let opts = req.into_validation_options();
    assert!(!opts.skip_kv_validations);
    assert_eq!(opts.sync_validators.len(), 3);
}

#[test]
fn generate_request_validation() {
    let mut m = GenerateTokenRequestModel {
        issuer: "i".to_string(),
        subject: "s".to_string(),
        audience: "a".to_string(),
        countries: vec!["DE".to_string()],
        expiration_in_hours: 1,
        token_identifier: "t".to_string(),
    };
    assert_eq!(m.validate(), Ok(()));
    m.expiration_in_hours = 0;
    assert_eq!(m.validate(), Err(CatError::BadRequest));
    m.expiration_in_hours = 2;
    m.countries.clear();
    assert_eq!(m.validate(), Err(CatError::BadRequest));
}

fn generate_request(countries: &[&str], hours: u64) -> GenerateTokenRequestModel {
    GenerateTokenRequestModel {
        issuer: "iss-1".to_string(),
        subject: "s-9".to_string(),
        audience: "aud-1".to_string(),
        countries: countries.iter().map(|c| c.to_string()).collect(),
        expiration_in_hours: hours,
        token_identifier: "tid".to_string(),
    }
}

#[test]
fn generated_token_validates() {
    let text = generate_test_token(&generate_request(&["DE", "AT"], 1), current_timestamp(), KEY).unwrap();
    let bytes = token_bytes(&text).unwrap();
    let cat = Cat::new(KEY);
    assert_eq!(cat.verify_token(&bytes), Ok(()));
    let req = request("de", "Mozilla/5.0 curl");
    assert_eq!(cat.validate(&bytes, &req.into_validation_options(), Some(BlockedData::new())), Ok(()));
    let simple = request("de", "Mozilla/5.0 curl").into_non_kv_validation_options();
    assert_eq!(cat.validate(&bytes, &simple, None), Ok(()));
    let opts = request("de", "Chrome").into_validation_options();
    assert_eq!(
        cat.validate(&bytes, &opts, None),
        Err(CatError::ValidatorFailure { claim: cat_keys::CATH, error: ClaimError::HeaderValueInvalid })
    );
    assert_eq!(Cat::new("other-key").verify_token(&bytes), Err(CatError::SignatureInvalid));
}

#[test]
fn generated_token_claims() {
    let c = test_token_claims(&generate_request(&["DE"], 2), 1_000).ok().unwrap();
    assert_eq!(c.registered.iss, Some("iss-1".to_string()));
    assert_eq!(c.registered.sub, Some("s-9".to_string()));
    assert_eq!(c.registered.exp, Some(8_200));
    assert_eq!(c.registered.nbf, Some(1_000));
    assert_eq!(c.registered.iat, Some(1_000));
    assert_eq!(c.registered.cti, Some(b"tid".to_vec()));
    assert!(matches!(c.custom.get(&cat_keys::CATV), Some(CborValue::Integer(1))));
    assert!(matches!(c.custom.get(&cat_keys::CATM), Some(CborValue::Array(a)) if a.len() == 1));
    assert!(matches!(c.custom.get(&cat_keys::CATGEOISO3166), Some(CborValue::Array(a)) if a.len() == 1));
    assert_eq!(c.custom.len(), 5);
    assert!(matches!(test_token_claims(&generate_request(&[], 2), 1_000), Err(CatError::BadRequest)));
    assert!(matches!(test_token_claims(&generate_request(&["DE"], 0), 1_000), Err(CatError::BadRequest)));
    assert!(matches!(generate_test_token(&generate_request(&["DE"], 0), 1_000, KEY), Err(CatError::BadRequest)));
}

#[test]
fn oversized_array_length_is_a_decode_error() {
    let mut protected = vec![0x9b];
    protected.extend_from_slice(&[0xff; 8]);
    let mut token = vec![0x84, 0x49];
    token.extend_from_slice(&protected);
    token.extend_from_slice(&[0xa0, 0x40, 0x40]);
    let cat = Cat::new(KEY);
    assert_eq!(cat.verify_token(&token), Err(CatError::TokenDecode));
    assert_eq!(cat.validate(&token, &full("de"), None), Err(CatError::TokenDecode));
}

#[test]
fn deep_nesting_is_a_decode_error() {
    let mut claims = vec![0x81u8; 200];
    claims.push(0x00);
    let mut token = vec![0x84, 0x41, 0xa0, 0xa0, 0x58, claims.len() as u8];
    token.extend_from_slice(&claims);
    token.push(0x40);
    let cat = Cat::new(KEY);
    assert_eq!(cat.verify_token(&token), Err(CatError::TokenDecode));
}

#[test]
fn generated_claims_match_token_library_helpers() {
    let c = test_token_claims(&generate_request(&["DE", "AT"], 1), 1_000).ok().unwrap();
    let mut catu_components = BTreeMap::new();
    catu_components.insert(uri_components::SCHEME, catu::exact_match("https"));
    catu_components.insert(uri_components::HOST, catu::exact_match("my-streaming.api"));
    catu_components.insert(uri_components::PATH, catu::prefix_match("/media"));
    catu_components.insert(uri_components::EXTENSION, catu::exact_match(".mp4"));
    assert_eq!(c.custom.get(&cat_keys::CATU), Some(&catu::create(catu_components)));
    assert_eq!(c.custom.get(&cat_keys::CATV), Some(&catv::create()));
    assert_eq!(c.custom.get(&cat_keys::CATM), Some(&CborValue::Array(catm::create(vec!["GET"]))));
    assert_eq!(
        c.custom.get(&cat_keys::CATGEOISO3166),
        Some(&CborValue::Array(catm::create(vec!["DE", "AT"])))
    );
}
