//! The error kinds of the library.
use vstd::prelude::*;

verus! {

/// Why a custom-claim validator refused a claim.
#[derive(Clone, Copy, Debug, PartialEq, Eq, Structural)]
pub enum ClaimError {
    /// The claim has a type that its validator does not take.
    InvalidType,
    /// The version claim names a version other than 1.
    InvalidVersion,
    /// The header claim has an odd number of entries.
    UnexpectedLength,
    /// The header claim lacks a header name where one is due.
    MissingHeaderName,
    /// A header that the claim requires is not in the request.
    HeaderMissing,
    /// A header of the request does not match what the claim asks of it.
    HeaderValueInvalid,
    /// The request's country is not among those the claim grants.
    CountryNotGranted,
    /// The client IP address is not a valid address.
    InvalidClientIp,
    /// No network of the claim contains the client IP address.
    IpNotAllowed,
}

/// Which denylist check refused a request.
#[derive(Clone, Copy, Debug, PartialEq, Eq, Structural)]
pub enum BlockReason {
    Subject,
    Country,
    UserAgent,
    Ip,
}

/// Which registered claim the token library rejected.
#[derive(Clone, Copy, Debug, PartialEq, Eq, Structural)]
pub enum RejectedClaim {
    /// The token has expired.
    Expiration,
    /// The token is not valid yet.
    NotBefore,
    /// The issuer is not the expected one.
    Issuer,
    /// The audience is not the expected one.
    Audience,
    /// The URI claim does not admit the request's URL.
    Uri,
    /// The method claim does not admit the request's method.
    Method,
    /// A required claim is missing or malformed.
    Other,
}

/// Why a request or a token was refused.
#[derive(Clone, Copy, Debug, PartialEq, Eq, Structural)]
pub enum CatError {
    /// Malformed input: an unknown denylist category, an undecodable body.
    BadRequest,
    /// The token bytes do not decode.
    TokenDecode,
    /// The token's MAC does not verify under the key.
    SignatureInvalid,
    /// The token library rejected a registered claim, or the URI or method.
    ClaimRejected(RejectedClaim),
    /// A denylist entry matched.
    Blocked(BlockReason),
    /// A custom-claim validator refused the claim under `claim`.
    ValidatorFailure { claim: i32, error: ClaimError },
}

} // verus!
