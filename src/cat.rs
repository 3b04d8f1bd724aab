//! The validation pipeline: decode, signature, denylist, registered claims,
//! custom-claim validators, in that order.
use vstd::prelude::*;

use std::collections::BTreeMap;

use common_access_token::{
    CborValue, Claims, Error as TokenError, FingerprintType, RegisteredClaims, Token,
    VerificationOptions,
};

use crate::claims::{present, SyncValidator, Validate};
use crate::error::{BlockReason, CatError, RejectedClaim};
use crate::kv::{some_asn_contains, KvValidator};
use crate::network::{some_cidr_contains, IpAddress};
use crate::persistence::{BlockedClaimType, BlockedData};
use crate::text::{upper_of, uppercase};
use crate::wire::{token_shape, token_shape_ok};

verus! {

broadcast use vstd::std_specs::btree::group_btree_axioms;

#[verifier::external_type_specification]
#[verifier::external_body]
pub struct ExFingerprintType(FingerprintType);

#[verifier::external_type_specification]
pub struct ExVerificationOptions(VerificationOptions);

#[verifier::external_type_specification]
pub struct ExClaims(Claims);

#[verifier::external_type_specification]
pub struct ExRegisteredClaims(RegisteredClaims);

/// Whether `common_access_token::Token::from_bytes` decodes the bytes.
pub uninterp spec fn token_decodes(bytes: Seq<u8>) -> bool;

/// Whether an encoded token is of the bounded shape that the library checks
/// first, and then decodes.
pub open spec fn token_readable(bytes: Seq<u8>) -> bool {
    token_shape_ok(bytes) && token_decodes(bytes)
}

/// Whether the token that `bytes` encode carries a MAC that
/// `common_access_token::Token::verify` accepts under `key`.
pub uninterp spec fn mac_verifies(bytes: Seq<u8>, key: Seq<char>) -> bool;

/// Relies on `common_access_token::Token::from_bytes` and
/// `common_access_token::Token::verify`: the MAC check depends on the bytes and
/// the key alone; bytes that do not decode carry no valid MAC.
#[verifier::external_body]
fn signature_verifies(bytes: &[u8], key: &str) -> (r: bool)
    requires
        token_shape_ok(bytes@),
    ensures
        r == mac_verifies(bytes@, key@),
{
    match Token::from_bytes(bytes) {
        Ok(token) => token.verify(key.as_bytes()).is_ok(),
        Err(_) => false,
    }
}

/// The claims of the token that `bytes` encode, as
/// `common_access_token::Token::from_bytes` decodes them.
pub uninterp spec fn decoded_claims(bytes: Seq<u8>) -> Claims;

/// Relies on `common_access_token::Token::from_bytes` and the token's `claims`
/// field: whether the bytes decode, and the claims, depend on the bytes alone.
/// On bytes of the checked shape the decoder allocates no more than the input
/// holds and recurses at most `MAX_DEPTH` deep.
#[verifier::external_body]
fn token_claims(bytes: &[u8]) -> (r: Option<Claims>)
    requires
        token_shape_ok(bytes@),
    ensures
        r is Some == token_decodes(bytes@),
        r matches Some(c) ==> c == decoded_claims(bytes@),
{
    Token::from_bytes(bytes).ok().map(|token| token.claims)
}

/// The audience a request expects: the one given, or empty.
pub open spec fn expected_audience(opts: CatValidationOptions) -> Seq<char> {
    match opts.audience {
        Some(a) => a@,
        None => Seq::<char>::empty(),
    }
}

/// `o` configures the token library for the request `opts`: expiry and
/// not-before as configured, the expected issuer, the expected audience
/// (required when given, else empty), the URI claim against the URL, the
/// method claim against the upper-cased method, nothing else.
pub open spec fn options_for(opts: CatValidationOptions, o: VerificationOptions) -> bool {
    &&& o.verify_exp == opts.validate_expiration
    &&& !o.require_exp
    &&& o.verify_nbf == opts.validate_not_before
    &&& o.expected_issuer matches Some(i) && i@ == opts.issuer@
    &&& !o.require_iss
    &&& o.expected_audience matches Some(a) && a@ == expected_audience(opts)
    &&& o.require_aud == opts.audience is Some
    &&& o.verify_catu
    &&& o.uri matches Some(u) && u@ == opts.url@
    &&& o.verify_catm
    &&& o.http_method matches Some(m) && m@ == upper_of(opts.method@)
    &&& !o.verify_catreplay
    &&& !o.token_seen_before
    &&& !o.verify_cattprint
    &&& o.fingerprint_type is None
    &&& o.fingerprint_value is None
}

/// The registered-claim check a request asks for.
pub fn verification_options(opts: &CatValidationOptions) -> (r: VerificationOptions)
    ensures
        options_for(*opts, r),
{
    VerificationOptions {
        verify_exp: opts.validate_expiration,
        require_exp: false,
        verify_nbf: opts.validate_not_before,
        expected_issuer: Some(opts.issuer.clone()),
        require_iss: false,
        expected_audience: Some(
            match &opts.audience {
                Some(a) => a.clone(),
                None => String::new(),
            },
        ),
        require_aud: opts.audience.is_some(),
        verify_catu: true,
        uri: Some(opts.url.clone()),
        verify_catm: true,
        http_method: Some(uppercase(opts.method.as_str())),
        verify_catreplay: false,
        token_seen_before: false,
        verify_cattprint: false,
        fingerprint_type: None,
        fingerprint_value: None,
    }
}

/// What can be said of a rejection of the registered claims `cl` under the
/// options `o` without the clock: a differing issuer or audience, or a missing
/// required audience, is rejected; an issuer or audience rejection names a
/// differing value; an expiry or not-before rejection needs that check and
/// that claim.
pub open spec fn rejection_fits(cl: RegisteredClaims, o: VerificationOptions, r: Option<RejectedClaim>) -> bool {
    &&& (o.expected_issuer matches Some(e) && cl.iss matches Some(i) && i@ != e@) ==> r is Some
    &&& (o.expected_audience matches Some(e) && cl.aud matches Some(a) && a@ != e@) ==> r is Some
    &&& (o.expected_audience is Some && cl.aud is None && o.require_aud) ==> r is Some
    &&& r == Some(RejectedClaim::Issuer) ==> (o.expected_issuer matches Some(e) && cl.iss matches Some(i)
        && i@ != e@)
    &&& r == Some(RejectedClaim::Audience) ==> (o.expected_audience matches Some(e) && cl.aud matches Some(
        a,
    ) && a@ != e@)
    &&& r == Some(RejectedClaim::Expiration) ==> (o.verify_exp && cl.exp is Some)
    &&& r == Some(RejectedClaim::NotBefore) ==> (o.verify_nbf && cl.nbf is Some)
}

/// Relies on `common_access_token::Token::from_bytes` and
/// `common_access_token::Token::verify_claims`: expiry and not-before against
/// the clock, then issuer, audience, and the URI and method claims. `None`
/// when all hold, else the kind of its error.
#[verifier::external_body]
fn registered_claims_verdict(bytes: &[u8], options: &VerificationOptions) -> (r: Option<RejectedClaim>)
    requires
        token_shape_ok(bytes@),
    ensures
        token_decodes(bytes@) ==> rejection_fits(decoded_claims(bytes@).registered, *options, r),
{
    let token = match Token::from_bytes(bytes) {
        Ok(t) => t,
        Err(_) => return Some(RejectedClaim::Other),
    };
    match token.verify_claims(options) {
        Ok(()) => None,
        Err(TokenError::Expired) => Some(RejectedClaim::Expiration),
        Err(TokenError::NotYetValid) => Some(RejectedClaim::NotBefore),
        Err(TokenError::InvalidIssuer) => Some(RejectedClaim::Issuer),
        Err(TokenError::InvalidAudience) => Some(RejectedClaim::Audience),
        Err(TokenError::InvalidUriClaim(_)) => Some(RejectedClaim::Uri),
        Err(TokenError::InvalidMethodClaim(_)) => Some(RejectedClaim::Method),
        Err(_) => Some(RejectedClaim::Other),
    }
}

/// What `base64_url::decode` makes of a text: the bytes, or `None` on an error.
pub uninterp spec fn base64url_decoded(s: Seq<char>) -> Option<Seq<u8>>;

/// Relies on `base64_url::decode` (URL-safe alphabet, no padding): the result
/// depends on the text alone.
#[verifier::external_body]
fn base64url_decode(s: &str) -> (r: Option<Vec<u8>>)
    ensures
        match r {
            Some(b) => base64url_decoded(s@) == Some(b@),
            None => base64url_decoded(s@) is None,
        },
{
    base64_url::decode(s).ok()
}

/// What `base64_url::encode` makes of bytes.
pub uninterp spec fn base64url_encoded(b: Seq<u8>) -> Seq<char>;

/// Relies on `base64_url::encode` (URL-safe alphabet, no padding): the text
/// depends on the bytes alone.
#[verifier::external_body]
pub(crate) fn base64url_encode(b: &[u8]) -> (r: String)
    ensures
        r@ == base64url_encoded(b@),
{
    base64_url::encode(b)
}

/// The raw bytes of a token as carried in a request (base64url); text that
/// does not decode is a bad request.
pub fn token_bytes(token: &str) -> (r: Result<Vec<u8>, CatError>)
    ensures
        match r {
            Ok(b) => base64url_decoded(token@) == Some(b@),
            Err(e) => base64url_decoded(token@) is None && e == CatError::BadRequest,
        },
{
    match base64url_decode(token) {
        Some(b) => Ok(b),
        None => Err(CatError::BadRequest),
    }
}

/// The request context of one validation.
pub struct CatValidationOptions {
    /// The custom-claim validators, run in this order.
    pub sync_validators: Vec<SyncValidator>,
    pub url: String,
    pub method: String,
    pub issuer: String,
    pub country: Option<String>,
    /// `None` when the request's client address did not parse.
    pub client_ip: Option<IpAddress>,
    pub user_agent: Option<String>,
    pub validate_expiration: bool,
    pub validate_not_before: bool,
    pub audience: Option<String>,
    pub skip_kv_validations: bool,
    /// Whether the CIDRs announced for blocked AS numbers block the client too.
    pub check_asn_cidrs: bool,
}

/// The denylist reason that refuses a request, if any, each category answering
/// only when its flag is set: subject (a missing subject counts as blocked),
/// then country, then user agent, then client IP.
pub open spec fn block_reason(d: BlockedData, subject: Option<String>, opts: CatValidationOptions) -> Option<BlockReason> {
    if !d.any {
        None
    } else if match subject {
        None => true,
        Some(s) => d.any_subjects && d.text_set(BlockedClaimType::Subject).contains(s@),
    } {
        Some(BlockReason::Subject)
    } else if opts.country matches Some(c) && d.any_countries && d.text_set(
        BlockedClaimType::Country,
    ).contains(c@) {
        Some(BlockReason::Country)
    } else if opts.user_agent matches Some(u) && d.any_user_agents && d.text_set(
        BlockedClaimType::UserAgent,
    ).contains(u@) {
        Some(BlockReason::UserAgent)
    } else if opts.client_ip matches Some(ip) && ((d.any_cidrs && some_cidr_contains(d.cidrs@, ip))
        || (opts.check_asn_cidrs && d.any_asns && some_asn_contains(d.asns@, ip))) {
        Some(BlockReason::Ip)
    } else {
        None
    }
}

/// The value of a custom claim, if present.
pub open spec fn claim_at(custom: Map<i32, CborValue>, key: i32) -> Option<CborValue> {
    if custom.contains_key(key) {
        Some(custom[key])
    } else {
        None
    }
}

/// Validator `i` accepts its claim.
pub open spec fn accepted(vs: Seq<SyncValidator>, custom: Map<i32, CborValue>, i: int) -> bool {
    vs[i].accepts(claim_at(custom, vs[i].key()))
}

/// The outcome of the custom-claim validators: `Ok` when all accept, else the
/// failure of the first that refuses, with its claim key and error kind.
pub open spec fn validators_verdict(
    vs: Seq<SyncValidator>,
    custom: Map<i32, CborValue>,
    r: Result<(), CatError>,
) -> bool {
    match r {
        Ok(()) => forall|i: int| 0 <= i < vs.len() ==> accepted(vs, custom, i),
        Err(e) => exists|i: int|
            0 <= i < vs.len() && !accepted(vs, custom, i) && (forall|j: int|
                0 <= j < i ==> accepted(vs, custom, j)) && (e matches CatError::ValidatorFailure {
                claim,
                error,
            } && claim == vs[i].key() && error == vs[i].refusal(claim_at(custom, vs[i].key()))),
    }
}

/// The outcome of the checks after the signature: denylist (unless skipped or
/// no snapshot is given), then the registered claims, then the validators.
pub open spec fn pipeline_verdict(
    snapshot: Option<BlockedData>,
    subject: Option<String>,
    opts: CatValidationOptions,
    rejected: Option<RejectedClaim>,
    custom: Map<i32, CborValue>,
    r: Result<(), CatError>,
) -> bool {
    let reason = if opts.skip_kv_validations {
        None
    } else {
        match snapshot {
            Some(d) => block_reason(d, subject, opts),
            None => None,
        }
    };
    match reason {
        Some(why) => r == Err::<(), CatError>(CatError::Blocked(why)),
        None => match rejected {
            Some(which) => r == Err::<(), CatError>(CatError::ClaimRejected(which)),
            None => validators_verdict(opts.sync_validators@, custom, r),
        },
    }
}

/// Runs the validators in order against the custom claims; the first failure
/// is returned.
pub fn run_validators(validators: &Vec<SyncValidator>, custom: &BTreeMap<i32, CborValue>) -> (r: Result<(), CatError>)
    ensures
        validators_verdict(validators@, custom@, r),
{
    let mut i: usize = 0;
    while i < validators.len()
        invariant
            i <= validators@.len(),
            forall|j: int| 0 <= j < i ==> accepted(validators@, custom@, j),
        decreases validators.len() - i,
    {
        let v = &validators[i];
        let key = v.get_claim_key();
        let claim = custom.get(&key);
        assert(present(claim) == claim_at(custom@, key));
        match v.validate(claim) {
            Ok(()) => {},
            Err(e) => {
                assert(!accepted(validators@, custom@, i as int));
                return Err(CatError::ValidatorFailure { claim: key, error: e });
            },
        }
        i = i + 1;
    }
    Ok(())
}

/// The denylist step over a normalised snapshot.
pub fn check_denylist(kv: &KvValidator, subject: &Option<String>, opts: &CatValidationOptions) -> (r: Option<BlockReason>)
    requires
        kv.wf(),
    ensures
        r == block_reason(kv.data(), *subject, *opts),
{
    if !kv.any() {
        return None;
    }
    if kv.is_subject_blocked(subject, true) {
        return Some(BlockReason::Subject);
    }
    match &opts.country {
        Some(c) => {
            if kv.is_country_blocked(c) {
                return Some(BlockReason::Country);
            }
        },
        None => {},
    }
    match &opts.user_agent {
        Some(u) => {
            if kv.is_user_agent_blocked(u) {
                return Some(BlockReason::UserAgent);
            }
        },
        None => {},
    }
    match &opts.client_ip {
        Some(ip) => {
            if kv.is_ip_blocked(ip) {
                return Some(BlockReason::Ip);
            }
            if opts.check_asn_cidrs && kv.is_ip_blocked_by_asn(ip) {
                return Some(BlockReason::Ip);
            }
        },
        None => {},
    }
    None
}

/// Steps after the signature, given the token's subject and custom claims and
/// which registered claim, if any, the token library rejected.
pub fn decide(
    kv: Option<&KvValidator>,
    subject: &Option<String>,
    opts: &CatValidationOptions,
    rejected: Option<RejectedClaim>,
    custom: &BTreeMap<i32, CborValue>,
) -> (r: Result<(), CatError>)
    requires
        kv matches Some(k) ==> k.wf(),
    ensures
        pipeline_verdict(
            match kv {
                Some(k) => Some(k.data()),
                None => None,
            },
            *subject,
            *opts,
            rejected,
            custom@,
            r,
        ),
{
    if !opts.skip_kv_validations {
        match kv {
            Some(k) => match check_denylist(k, subject, opts) {
                Some(why) => return Err(CatError::Blocked(why)),
                None => {},
            },
            None => {},
        }
    }
    match rejected {
        Some(which) => return Err(CatError::ClaimRejected(which)),
        None => {},
    }
    run_validators(&opts.sync_validators, custom)
}

/// The outcome `r` for the token bytes `cat`, given the options handed to the
/// token library and which registered claim it rejected.
pub open spec fn outcome_with(
    cat: Seq<u8>,
    opts: CatValidationOptions,
    snapshot: Option<BlockedData>,
    o: VerificationOptions,
    rejected: Option<RejectedClaim>,
    r: Result<(), CatError>,
) -> bool {
    let claims = decoded_claims(cat);
    &&& options_for(opts, o)
    &&& rejection_fits(claims.registered, o, rejected)
    &&& pipeline_verdict(snapshot, claims.registered.sub, opts, rejected, claims.custom@, r)
}

/// The outcome of the checks after the signature: for the options that the
/// request configures and some rejection that fits the decoded claims (the
/// clock decides the rest), the pipeline verdict.
pub open spec fn claims_outcome(
    cat: Seq<u8>,
    opts: CatValidationOptions,
    snapshot: Option<BlockedData>,
    r: Result<(), CatError>,
) -> bool {
    exists|o: VerificationOptions, rejected: Option<RejectedClaim>|
        outcome_with(cat, opts, snapshot, o, rejected, r)
}

/// Validates Common Access Tokens signed with one symmetric key.
pub struct Cat<'a> {
    key: &'a str,
}

impl<'a> Cat<'a> {
    /// The signing key.
    pub closed spec fn key(&self) -> Seq<char> {
        self.key@
    }

    pub fn new(key: &'a str) -> (r: Cat<'a>)
        ensures
            r.key() == key@,
    {
        Cat { key }
    }

    /// Decodes the token and verifies its MAC.
    pub fn verify_token(&self, cat: &[u8]) -> (r: Result<(), CatError>)
        ensures
            r is Ok <==> token_readable(cat@) && mac_verifies(cat@, self.key()),
            r == Err::<(), CatError>(CatError::TokenDecode) <==> !token_readable(cat@),
            r == Err::<(), CatError>(CatError::SignatureInvalid) <==> token_readable(cat@)
                && !mac_verifies(cat@, self.key()),
    {
        if !token_shape(cat) || token_claims(cat).is_none() {
            return Err(CatError::TokenDecode);
        }
        if !signature_verifies(cat, self.key) {
            return Err(CatError::SignatureInvalid);
        }
        Ok(())
    }

    /// The checks after the signature, on the token that `cat` encodes.
    /// `snapshot` is the denylist as loaded, consulted unless
    /// `skip_kv_validations` is set. The registered claims are checked against
    /// the clock, so which of them is rejected is open as far as the clock
    /// decides.
    pub fn validate_token(&self, cat: &[u8], opts: &CatValidationOptions, snapshot: Option<BlockedData>) -> (r: Result<(), CatError>)
        ensures
            !token_readable(cat@) ==> r == Err::<(), CatError>(CatError::TokenDecode),
            token_readable(cat@) ==> claims_outcome(cat@, *opts, snapshot, r),
    {
        if !token_shape(cat) {
            return Err(CatError::TokenDecode);
        }
        let claims = match token_claims(cat) {
            Some(c) => c,
            None => return Err(CatError::TokenDecode),
        };
        let options = verification_options(opts);
        let rejected = registered_claims_verdict(cat, &options);
        let ghost given = snapshot;
        match snapshot {
            Some(d) => {
                let kv = KvValidator::new(d);
                let r = decide(Some(&kv), &claims.registered.sub, opts, rejected, &claims.custom);
                proof {
                    let b = given->0;
                    assert(kv.data().text_set(BlockedClaimType::Subject) == b.text_set(BlockedClaimType::Subject));
                    assert(kv.data().text_set(BlockedClaimType::Country) == b.text_set(BlockedClaimType::Country));
                    assert(kv.data().text_set(BlockedClaimType::UserAgent) == b.text_set(BlockedClaimType::UserAgent));
                    assert(block_reason(kv.data(), claims.registered.sub, *opts) == block_reason(b, claims.registered.sub, *opts));
                    assert(pipeline_verdict(given, claims.registered.sub, *opts, rejected, claims.custom@, r));
                    assert(outcome_with(cat@, *opts, given, options, rejected, r));
                }
                r
            },
            None => {
                let r = decide(None, &claims.registered.sub, opts, rejected, &claims.custom);
                assert(pipeline_verdict(given, claims.registered.sub, *opts, rejected, claims.custom@, r));
                assert(outcome_with(cat@, *opts, given, options, rejected, r));
                r
            },
        }
    }

    /// The whole pipeline on encoded token bytes: decode, MAC, then the
    /// checks of `validate_token`.
    pub fn validate(&self, cat: &[u8], opts: &CatValidationOptions, snapshot: Option<BlockedData>) -> (r: Result<(), CatError>)
        ensures
            r == Err::<(), CatError>(CatError::TokenDecode) <==> !token_readable(cat@),
            r == Err::<(), CatError>(CatError::SignatureInvalid) <==> token_readable(cat@)
                && !mac_verifies(cat@, self.key()),
            token_readable(cat@) && mac_verifies(cat@, self.key()) ==> claims_outcome(
                cat@,
                *opts,
                snapshot,
                r,
            ),
            opts.skip_kv_validations ==> !(r matches Err(CatError::Blocked(_))),
    {
        match self.verify_token(cat) {
            Ok(()) => {},
            Err(e) => return Err(e),
        }
        let r = self.validate_token(cat, opts, snapshot);
        r
    }
}

} // verus!
