//! Match kinds for header values: exact, prefix, suffix, contains, regex.
use vstd::prelude::*;

use crate::error::ClaimError;
use crate::text::{contains_text, ends_with, occurs_at, occurs_in, starts_with};

verus! {

/// Whether `regex::Regex::new` accepts a pattern.
pub uninterp spec fn regex_compiles(pattern: Seq<char>) -> bool;

/// What `regex::Regex::is_match` answers for a compiled pattern and a text.
pub uninterp spec fn regex_finds(pattern: Seq<char>, text: Seq<char>) -> bool;

/// Relies on `regex::Regex::new` (whether the pattern compiles) and
/// `regex::Regex::is_match` (whether it matches somewhere in the text); both
/// depend on the pattern and the text alone.
#[verifier::external_body]
fn regex_match(pattern: &str, text: &str) -> (r: Option<bool>)
    ensures
        r is Some == regex_compiles(pattern@),
        r matches Some(b) ==> b == regex_finds(pattern@, text@),
{
    regex::Regex::new(pattern).ok().map(|re| re.is_match(text))
}

/// How a header value must relate to a pattern.
pub enum MatchKind {
    Exact(String),
    Prefix(String),
    Suffix(String),
    Contains(String),
    RegEx(String),
}

impl MatchKind {
    /// Whether `value` satisfies the match. A regex that does not compile
    /// matches nothing.
    pub open spec fn accepts(&self, value: Seq<char>) -> bool {
        match self {
            MatchKind::Exact(p) => value == p@,
            MatchKind::Prefix(p) => occurs_at(value, p@, 0),
            MatchKind::Suffix(p) => p@.len() <= value.len() && occurs_at(value, p@, value.len() - p@.len()),
            MatchKind::Contains(p) => occurs_in(value, p@),
            MatchKind::RegEx(p) => regex_compiles(p@) && regex_finds(p@, value),
        }
    }

    /// Checks a header value against the match.
    pub fn validate(&self, header_value: &String) -> (r: Result<(), ClaimError>)
        ensures
            r is Ok <==> self.accepts(header_value@),
            r is Err ==> r == Err::<(), ClaimError>(ClaimError::HeaderValueInvalid),
    {
        let valid = match self {
            MatchKind::Exact(expected) => *header_value == *expected,
            MatchKind::Prefix(expected) => starts_with(header_value.as_str(), expected.as_str()),
            MatchKind::Suffix(expected) => ends_with(header_value.as_str(), expected.as_str()),
            MatchKind::Contains(expected) => contains_text(header_value.as_str(), expected.as_str()),
            MatchKind::RegEx(expected) => match regex_match(expected.as_str(), header_value.as_str()) {
                Some(found) => found,
                None => false,
            },
        };
        if valid {
            Ok(())
        } else {
            Err(ClaimError::HeaderValueInvalid)
        }
    }
}

} // verus!
