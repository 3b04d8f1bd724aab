//! The claim values of the test tokens that the minting endpoint issues.
use vstd::prelude::*;

use std::collections::BTreeMap;

use common_access_token::{Algorithm, CborValue, Claims, KeyId, RegisteredClaims, TokenBuilder};

use crate::cat::{base64url_encode, base64url_encoded};
use crate::claims::{CATGEOISO3166, CATH, CATM, CATU, CATV};
use crate::error::CatError;
use crate::models::GenerateTokenRequestModel;

verus! {

broadcast use vstd::std_specs::btree::group_btree_axioms;

/// Seconds in an hour.
pub const SECONDS_PER_HOUR: u64 = 3600;

/// The expiry `hours` hours after `now`, unless it does not fit in 64 bits.
pub fn expiration_at(now: u64, hours: u64) -> (r: Option<u64>)
    ensures
        r == (if now + hours * 3600 <= u64::MAX {
            Some((now + hours * 3600) as u64)
        } else {
            None
        }),
{
    match hours.checked_mul(SECONDS_PER_HOUR) {
        Some(secs) => now.checked_add(secs),
        None => {
            assert(hours * 3600 > u64::MAX);
            None
        },
    }
}

/// `v` is the text `t`.
pub open spec fn is_text(v: CborValue, t: Seq<char>) -> bool {
    v matches CborValue::Text(s) && s@ == t
}

/// `v` is the match-kind map `{1: kind, 2: pattern}`.
pub open spec fn is_match_map(v: CborValue, kind: i64, pattern: Seq<char>) -> bool {
    v matches CborValue::Map(m) && m@.dom() == set![1i32, 2i32] && m@[1i32] == CborValue::Integer(
        kind,
    ) && is_text(m@[2i32], pattern)
}

fn text(s: &str) -> (r: CborValue)
    ensures
        is_text(r, s@),
{
    CborValue::Text(s.to_string())
}

fn match_map(kind: i64, pattern: &str) -> (r: CborValue)
    ensures
        is_match_map(r, kind, pattern@),
{
    let mut m: BTreeMap<i32, CborValue> = BTreeMap::new();
    m.insert(1, CborValue::Integer(kind));
    m.insert(2, text(pattern));
    assert(m@.dom() =~= set![1i32, 2i32]);
    CborValue::Map(m)
}

/// The header claim of a test token: `User-Agent` must contain `Mozilla`.
pub fn test_header_claim() -> (r: BTreeMap<i32, CborValue>)
    ensures
        r@.dom() == set![1i32, 2i32],
        is_text(r@[1i32], "User-Agent"@),
        is_match_map(r@[2i32], 3, "Mozilla"@),
{
    let mut map: BTreeMap<i32, CborValue> = BTreeMap::new();
    map.insert(1, text("User-Agent"));
    map.insert(2, match_map(3, "Mozilla"));
    assert(map@.dom() =~= set![1i32, 2i32]);
    map
}

/// The CBOR encoding of the token that `common_access_token::TokenBuilder`
/// signs with HMAC-SHA256 under `key`, with the key id `key_id` in its
/// protected header and the given registered and custom claims.
pub uninterp spec fn minted_bytes(
    key_id: Seq<char>,
    registered: RegisteredClaims,
    custom: Map<i32, CborValue>,
    key: Seq<char>,
) -> Seq<u8>;

/// Relies on `TokenBuilder` (`algorithm`, `protected_key_id`,
/// `registered_claims`, `custom_cbor`), `TokenBuilder::sign` and
/// `Token::to_bytes`: with the algorithm set, signing and encoding into a
/// vector do not fail, and the bytes depend on the arguments alone.
#[verifier::external_body]
fn mint_token(
    key_id: &str,
    registered: &RegisteredClaims,
    custom: &BTreeMap<i32, CborValue>,
    key: &str,
) -> (r: Option<Vec<u8>>)
    ensures
        r is Some,
        r matches Some(b) ==> b@ == minted_bytes(key_id@, *registered, custom@, key@),
{
    let mut builder = TokenBuilder::new().algorithm(Algorithm::HmacSha256)
        .protected_key_id(KeyId::string(key_id)).registered_claims(registered.clone());
    for (k, v) in custom {
        builder = builder.custom_cbor(*k, v.clone());
    }
    builder.sign(key.as_bytes()).ok()?.to_bytes().ok()
}

/// URI component keys and match types of the URI claim.
pub const URI_SCHEME: i32 = 0;

pub const URI_HOST: i32 = 1;

pub const URI_PATH: i32 = 3;

pub const URI_EXTENSION: i32 = 8;

pub const MATCH_EXACT: i32 = 0;

pub const MATCH_PREFIX: i32 = 1;

/// `v` is the map `{key: {kind: text}}` entry of a URI claim.
pub open spec fn is_uri_match(v: CborValue, kind: i32, t: Seq<char>) -> bool {
    v matches CborValue::Map(m) && m@.dom() == set![kind] && is_text(m@[kind], t)
}

/// `v` is the URI claim of test tokens.
pub open spec fn is_test_uri_claim(v: CborValue) -> bool {
    v matches CborValue::Map(m) && m@.dom() == set![URI_SCHEME, URI_HOST, URI_PATH, URI_EXTENSION]
        && is_uri_match(m@[URI_SCHEME], MATCH_EXACT, "https"@) && is_uri_match(
        m@[URI_HOST],
        MATCH_EXACT,
        "my-streaming.api"@,
    ) && is_uri_match(m@[URI_PATH], MATCH_PREFIX, "/media"@) && is_uri_match(
        m@[URI_EXTENSION],
        MATCH_EXACT,
        ".mp4"@,
    )
}

/// `v` is an array of the texts `ts`.
pub open spec fn is_text_array(v: CborValue, ts: Seq<Seq<char>>) -> bool {
    v matches CborValue::Array(a) && a@.len() == ts.len() && forall|i: int|
        0 <= i < ts.len() ==> is_text(#[trigger] a@[i], ts[i])
}

fn uri_match(kind: i32, t: &str) -> (r: CborValue)
    ensures
        is_uri_match(r, kind, t@),
{
    let mut m: BTreeMap<i32, CborValue> = BTreeMap::new();
    m.insert(kind, text(t));
    assert(m@.dom() =~= set![kind]);
    CborValue::Map(m)
}

/// The URI claim of test tokens.
pub fn test_uri_claim() -> (r: CborValue)
    ensures
        is_test_uri_claim(r),
{
    let mut m: BTreeMap<i32, CborValue> = BTreeMap::new();
    m.insert(URI_SCHEME, uri_match(MATCH_EXACT, "https"));
    m.insert(URI_HOST, uri_match(MATCH_EXACT, "my-streaming.api"));
    m.insert(URI_PATH, uri_match(MATCH_PREFIX, "/media"));
    m.insert(URI_EXTENSION, uri_match(MATCH_EXACT, ".mp4"));
    assert(m@.dom() =~= set![URI_SCHEME, URI_HOST, URI_PATH, URI_EXTENSION]);
    CborValue::Map(m)
}

/// An array of the given texts.
pub fn text_array(values: &Vec<String>) -> (r: CborValue)
    ensures
        is_text_array(r, crate::text::views(values@)),
{
    let mut out: Vec<CborValue> = Vec::new();
    let mut i: usize = 0;
    while i < values.len()
        invariant
            i <= values@.len(),
            out@.len() == i,
            forall|j: int| 0 <= j < i ==> is_text(#[trigger] out@[j], values@[j]@),
        decreases values.len() - i,
    {
        out.push(CborValue::Text(values[i].clone()));
        i = i + 1;
    }
    CborValue::Array(out)
}

/// The UTF-8 bytes of a string.
fn utf8_bytes(s: &String) -> (r: Vec<u8>)
    ensures
        r@ == vstd::utf8::encode_utf8(s@),
{
    let bytes = s.as_str().as_bytes();
    let mut out: Vec<u8> = Vec::new();
    let mut i: usize = 0;
    while i < bytes.len()
        invariant
            i <= bytes@.len(),
            out@ == bytes@.take(i as int),
        decreases bytes.len() - i,
    {
        out.push(bytes[i]);
        assert(bytes@.take(i + 1) =~= bytes@.take(i as int).push(bytes@[i as int]));
        i = i + 1;
    }
    assert(bytes@.take(i as int) =~= bytes@);
    out
}

/// `c` are the claims of a test token minted at `now` for the request `m`:
/// issuer, subject, audience and token id from the request, expiry `hours`
/// after `now`, not-before and issued-at `now`; version 1, the URI claim,
/// the method `GET`, the requested countries and the header claim.
pub open spec fn test_claims_of(m: GenerateTokenRequestModel, now: u64, c: Claims) -> bool {
    &&& c.registered.iss == Some(m.issuer)
    &&& c.registered.sub == Some(m.subject)
    &&& c.registered.aud == Some(m.audience)
    &&& c.registered.exp == Some((now + m.expiration_in_hours * 3600) as u64)
    &&& c.registered.nbf == Some(now)
    &&& c.registered.iat == Some(now)
    &&& c.registered.cti matches Some(b) && b@ == vstd::utf8::encode_utf8(m.token_identifier@)
    &&& c.custom@.dom() == set![CATV, CATU, CATM, CATGEOISO3166, CATH]
    &&& c.custom@[CATV] == CborValue::Integer(1)
    &&& is_test_uri_claim(c.custom@[CATU])
    &&& is_text_array(c.custom@[CATM], seq!["GET"@])
    &&& is_text_array(c.custom@[CATGEOISO3166], crate::text::views(m.countries@))
    &&& c.custom@[CATH] matches CborValue::Map(h) && h@.dom() == set![1i32, 2i32] && is_text(
        h@[1i32],
        "User-Agent"@,
    ) && is_match_map(h@[2i32], 3, "Mozilla"@)
}

/// A test-token request that can be served at `now`: at least one country,
/// an expiry of at least one hour that fits in 64 bits.
pub open spec fn mintable(m: GenerateTokenRequestModel, now: u64) -> bool {
    m.countries@.len() >= 1 && m.expiration_in_hours >= 1 && now + m.expiration_in_hours * 3600
        <= u64::MAX
}

/// The claims of a test token minted at `now` for the request `m`; a request
/// that is not mintable is a bad request.
pub fn test_token_claims(m: &GenerateTokenRequestModel, now: u64) -> (r: Result<Claims, CatError>)
    ensures
        r is Ok <==> mintable(*m, now),
        r is Err ==> r matches Err(CatError::BadRequest),
        r matches Ok(c) ==> test_claims_of(*m, now, c),
{
    if m.validate().is_err() {
        return Err(CatError::BadRequest);
    }
    let exp = match expiration_at(now, m.expiration_in_hours) {
        Some(e) => e,
        None => return Err(CatError::BadRequest),
    };
    let registered = RegisteredClaims {
        iss: Some(m.issuer.clone()),
        sub: Some(m.subject.clone()),
        aud: Some(m.audience.clone()),
        exp: Some(exp),
        nbf: Some(now),
        iat: Some(now),
        cti: Some(utf8_bytes(&m.token_identifier)),
    };
    let mut methods: Vec<CborValue> = Vec::new();
    methods.push(text("GET"));
    let methods = CborValue::Array(methods);
    assert(is_text_array(methods, seq!["GET"@])) by {
        if let CborValue::Array(a) = methods {
            assert(is_text(a@[0], "GET"@));
        }
    }
    let mut custom: BTreeMap<i32, CborValue> = BTreeMap::new();
    custom.insert(CATV, CborValue::Integer(1));
    custom.insert(CATU, test_uri_claim());
    custom.insert(CATM, methods);
    custom.insert(CATGEOISO3166, text_array(&m.countries));
    custom.insert(CATH, CborValue::Map(test_header_claim()));
    assert(custom@.dom() =~= set![CATV, CATU, CATM, CATGEOISO3166, CATH]);
    Ok(Claims { registered, custom })
}

/// Signs the claims with `key` under the key id `my-key-id` and encodes the
/// token as CBOR bytes.
pub fn sign_test_token(c: &Claims, key: &str) -> (r: Vec<u8>)
    ensures
        r@ == minted_bytes("my-key-id"@, c.registered, c.custom@, key@),
{
    match mint_token("my-key-id", &c.registered, &c.custom, key) {
        Some(bytes) => bytes,
        None => Vec::new(),
    }
}

/// Mints a test token for `m` at `now` and returns it base64url-encoded; a
/// request that is not mintable is a bad request.
pub fn generate_test_token(m: &GenerateTokenRequestModel, now: u64, key: &str) -> (r: Result<String, CatError>)
    ensures
        r is Ok <==> mintable(*m, now),
        r is Err ==> r matches Err(CatError::BadRequest),
        r matches Ok(t) ==> exists|c: Claims|
            test_claims_of(*m, now, c) && t@ == base64url_encoded(
                #[trigger] minted_bytes("my-key-id"@, c.registered, c.custom@, key@),
            ),
{
    let claims = match test_token_claims(m, now) {
        Ok(c) => c,
        Err(e) => return Err(e),
    };
    let bytes = sign_test_token(&claims, key);
    Ok(base64url_encode(&bytes))
}

} // verus!
