//! Request bodies of the HTTP surface, and the validation options a token
//! request turns into.
use vstd::prelude::*;

use crate::cat::CatValidationOptions;
use crate::claims::{
    CatCountryValidator, CatHeaderValidator, CatNipValidator, CatVersionValidator, SyncValidator,
};
use crate::error::CatError;
use crate::network::IpAddress;
use crate::text::{eq_ignore_ascii_case, equal_ignoring_ascii_case};

verus! {

/// A list of values to add to or remove from the denylist.
pub struct ItemsModel<T> {
    pub values: Vec<T>,
}

/// The body of a request to mint a test token.
pub struct GenerateTokenRequestModel {
    pub issuer: String,
    pub subject: String,
    pub audience: String,
    /// ISO 3166 country or region codes; at least one.
    pub countries: Vec<String>,
    /// At least one.
    pub expiration_in_hours: u64,
    pub token_identifier: String,
}

impl GenerateTokenRequestModel {
    /// Accepts a request with at least one country and an expiry of at least one hour.
    pub fn validate(&self) -> (r: Result<(), CatError>)
        ensures
            r is Ok <==> (self.countries@.len() >= 1 && self.expiration_in_hours >= 1),
            r is Err ==> r == Err::<(), CatError>(CatError::BadRequest),
    {
        if self.countries.len() < 1 || self.expiration_in_hours < 1 {
            Err(CatError::BadRequest)
        } else {
            Ok(())
        }
    }
}

/// The default of the optional validation flags of a request: validate.
pub fn validate_by_default() -> (r: Option<bool>)
    ensures
        r == Some(true),
{
    Some(true)
}

/// The body of a request to validate a token.
pub struct ValidateTokenRequestModel {
    /// The token, base64url-encoded.
    pub token: String,
    pub url: String,
    pub method: String,
    pub issuer: String,
    pub headers: Vec<(String, String)>,
    pub validate_not_before: Option<bool>,
    pub validate_expiration: Option<bool>,
    pub audience: Option<String>,
    /// `None` when the request's client address did not parse.
    pub client_ip: Option<IpAddress>,
    pub country: Option<String>,
}

/// The value of the first header whose name is `User-Agent`, compared without
/// regard to ASCII case.
pub open spec fn user_agent_of(headers: Seq<(String, String)>) -> Option<String>
    decreases headers.len(),
{
    if headers.len() == 0 {
        None
    } else if eq_ignore_ascii_case(headers[0].0@, "User-Agent"@) {
        Some(headers[0].1)
    } else {
        user_agent_of(headers.drop_first())
    }
}

/// Finds the user agent among the request headers.
pub fn find_user_agent(headers: &Vec<(String, String)>) -> (r: Option<String>)
    ensures
        r == user_agent_of(headers@),
{
    let mut i: usize = 0;
    assert(headers@.subrange(0, headers@.len() as int) =~= headers@);
    while i < headers.len()
        invariant
            i <= headers@.len(),
            user_agent_of(headers@) == user_agent_of(headers@.subrange(i as int, headers@.len() as int)),
        decreases headers.len() - i,
    {
        let ghost rest = headers@.subrange(i as int, headers@.len() as int);
        assert(rest.drop_first() =~= headers@.subrange(i + 1, headers@.len() as int));
        if equal_ignoring_ascii_case(headers[i].0.as_str(), "User-Agent") {
            return Some(headers[i].1.clone());
        }
        i = i + 1;
    }
    None
}

/// `opts` is what a token request `m` becomes: its fields carried over, the
/// user agent taken from its headers, and the validators version, header,
/// client network and, when a country is given, geography.
pub open spec fn options_of(m: ValidateTokenRequestModel, skip_kv: bool, opts: CatValidationOptions) -> bool {
    &&& opts.url == m.url
    &&& opts.method == m.method
    &&& opts.issuer == m.issuer
    &&& opts.audience == m.audience
    &&& opts.client_ip == m.client_ip
    &&& opts.user_agent == user_agent_of(m.headers@)
    &&& opts.validate_expiration == m.validate_expiration.unwrap_or(true)
    &&& opts.validate_not_before == m.validate_not_before.unwrap_or(true)
    &&& opts.skip_kv_validations == skip_kv
    &&& !opts.check_asn_cidrs
    &&& opts.country == m.country
    &&& opts.sync_validators@.len() == (if m.country is Some { 4int } else { 3int })
    &&& opts.sync_validators@[0] is Version
    &&& opts.sync_validators@[1] matches SyncValidator::Header(h) && h.headers == m.headers
    &&& opts.sync_validators@[2] matches SyncValidator::Nip(n) && n.client_ip == m.client_ip
    &&& m.country matches Some(c) ==> opts.sync_validators@[3] matches SyncValidator::Country(v)
        && v.country == c
}

impl ValidateTokenRequestModel {
    fn into_options(self, skip_kv: bool) -> (r: CatValidationOptions)
        ensures
            options_of(self, skip_kv, r),
    {
        let user_agent = find_user_agent(&self.headers);
        let country = match &self.country {
            Some(c) => Some(c.clone()),
            None => None,
        };
        let mut sync_validators: Vec<SyncValidator> = Vec::new();
        sync_validators.push(SyncValidator::Version(CatVersionValidator {  }));
        sync_validators.push(SyncValidator::Header(CatHeaderValidator { headers: self.headers }));
        sync_validators.push(SyncValidator::Nip(CatNipValidator { client_ip: self.client_ip }));
        match self.country {
            Some(c) => sync_validators.push(SyncValidator::Country(CatCountryValidator { country: c })),
            None => {},
        }
        CatValidationOptions {
            sync_validators,
            url: self.url,
            method: self.method,
            issuer: self.issuer,
            country,
            client_ip: self.client_ip,
            user_agent,
            validate_expiration: match self.validate_expiration {
                Some(b) => b,
                None => true,
            },
            validate_not_before: match self.validate_not_before {
                Some(b) => b,
                None => true,
            },
            audience: self.audience,
            skip_kv_validations: skip_kv,
            check_asn_cidrs: false,
        }
    }

    /// Options that skip the denylist.
    pub fn into_non_kv_validation_options(self) -> (r: CatValidationOptions)
        ensures
            options_of(self, true, r),
    {
        self.into_options(true)
    }

    /// Options that consult the denylist.
    pub fn into_validation_options(self) -> (r: CatValidationOptions)
        ensures
            options_of(self, false, r),
    {
        self.into_options(false)
    }
}

} // verus!
