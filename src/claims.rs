//! The custom-claim validators: version, headers, geography and client network.
use vstd::prelude::*;

use common_access_token::CborValue;

use crate::cbor::{
    address_admits, as_match_kind, as_network_addresses, as_string, decoded_addresses,
    match_kind_of, NetworkAddress,
};
use crate::error::ClaimError;
use crate::network::IpAddress;
use crate::text::{compare_strings, trim, trimmed, upper_of, uppercase};

verus! {

broadcast use vstd::std_specs::btree::group_btree_axioms;

/// Claim key of the version claim.
pub const CATV: i32 = 310;

/// Claim key of the client-network claim.
pub const CATNIP: i32 = 311;

/// Claim key of the URI claim.
pub const CATU: i32 = 312;

/// Claim key of the method claim.
pub const CATM: i32 = 313;

/// Claim key of the header claim.
pub const CATH: i32 = 315;

/// Claim key of the geography claim.
pub const CATGEOISO3166: i32 = 316;

/// A check of one custom claim of a token.
pub trait Validate {
    /// The claim key the validator reads.
    spec fn key(&self) -> i32;

    /// Whether the validator accepts the claim value (absent: `None`).
    spec fn accepts(&self, claim: Option<CborValue>) -> bool;

    /// The kind of error a refused claim gives.
    spec fn refusal(&self, claim: Option<CborValue>) -> ClaimError;

    fn get_claim_key(&self) -> (r: i32)
        ensures
            r == self.key(),
    ;

    fn validate(&self, claim: Option<&CborValue>) -> (r: Result<(), ClaimError>)
        ensures
            r is Ok <==> self.accepts(present(claim)),
            r is Err ==> r == Err::<(), ClaimError>(self.refusal(present(claim))),
    ;
}

/// The claim value behind an optional reference.
pub open spec fn present(claim: Option<&CborValue>) -> Option<CborValue> {
    match claim {
        Some(v) => Some(*v),
        None => None,
    }
}

/// Accepts the version claim when absent or the integer 1.
pub struct CatVersionValidator {}

impl Validate for CatVersionValidator {
    open spec fn key(&self) -> i32 {
        CATV
    }

    open spec fn accepts(&self, claim: Option<CborValue>) -> bool {
        match claim {
            None => true,
            Some(CborValue::Integer(v)) => v == 1,
            Some(_) => false,
        }
    }

    open spec fn refusal(&self, claim: Option<CborValue>) -> ClaimError {
        match claim {
            Some(CborValue::Integer(_)) => ClaimError::InvalidVersion,
            _ => ClaimError::InvalidType,
        }
    }

    fn get_claim_key(&self) -> (r: i32) {
        CATV
    }

    fn validate(&self, claim: Option<&CborValue>) -> (r: Result<(), ClaimError>) {
        match claim {
            Some(CborValue::Integer(v)) => {
                if *v != 1 {
                    return Err(ClaimError::InvalidVersion);
                }
                Ok(())
            },
            Some(_) => Err(ClaimError::InvalidType),
            None => Ok(()),
        }
    }
}

/// The value of the first header named `name`.
pub open spec fn header_lookup(headers: Seq<(String, String)>, name: Seq<char>) -> Option<String>
    decreases headers.len(),
{
    if headers.len() == 0 {
        None
    } else if headers[0].0@ == name {
        Some(headers[0].1)
    } else {
        header_lookup(headers.drop_first(), name)
    }
}

/// Looks a header up by its exact (case-sensitive) name.
pub fn find_header<'a>(headers: &'a Vec<(String, String)>, name: &String) -> (r: Option<&'a String>)
    ensures
        match r {
            Some(v) => header_lookup(headers@, name@) == Some(*v),
            None => header_lookup(headers@, name@) is None,
        },
{
    let mut i: usize = 0;
    assert(headers@.subrange(0, headers@.len() as int) =~= headers@);
    while i < headers.len()
        invariant
            i <= headers@.len(),
            header_lookup(headers@, name@) == header_lookup(headers@.subrange(i as int, headers@.len() as int), name@),
        decreases headers.len() - i,
    {
        let ghost rest = headers@.subrange(i as int, headers@.len() as int);
        assert(rest.drop_first() =~= headers@.subrange(i + 1, headers@.len() as int));
        if compare_strings(headers[i].0.as_str(), name.as_str()) == 0 {
            return Some(&headers[i].1);
        }
        i = i + 1;
    }
    None
}

/// What is wrong with pair `p` of a header claim (keys `2p + 1`, the name,
/// and `2p + 2`, an optional match kind), if anything: no header name, a
/// header that the request lacks, or a value that does not match.
pub open spec fn pair_error(headers: Seq<(String, String)>, m: Map<i32, CborValue>, p: int) -> Option<ClaimError> {
    let name_key = 2 * p + 1;
    if !(name_key + 1 <= i32::MAX && m.contains_key(name_key as i32)) {
        Some(ClaimError::MissingHeaderName)
    } else {
        match m[name_key as i32] {
            CborValue::Text(name) => {
                let mk = if m.contains_key((name_key + 1) as i32) {
                    match_kind_of(m[(name_key + 1) as i32])
                } else {
                    None
                };
                match header_lookup(headers, name@) {
                    None => Some(ClaimError::HeaderMissing),
                    Some(v) => match mk {
                        None => None,
                        Some(k) => if k.accepts(v@) {
                            None
                        } else {
                            Some(ClaimError::HeaderValueInvalid)
                        },
                    },
                }
            },
            _ => Some(ClaimError::MissingHeaderName),
        }
    }
}

/// Pair `p` of a header claim is met by the request headers.
pub open spec fn header_pair_ok(headers: Seq<(String, String)>, m: Map<i32, CborValue>, p: int) -> bool {
    pair_error(headers, m, p) is None
}

/// The first pair of a header claim that is not met.
pub open spec fn first_bad_pair(headers: Seq<(String, String)>, m: Map<i32, CborValue>) -> int {
    choose|p: int|
        0 <= p < m.len() / 2 && !header_pair_ok(headers, m, p) && forall|q: int|
            0 <= q < p ==> header_pair_ok(headers, m, q)
}

/// Checks the header claim against the request's headers.
pub struct CatHeaderValidator {
    /// The request's headers as (name, value) pairs. Built from a map, the
    /// names are unique; where a name repeats, its first pair counts.
    pub headers: Vec<(String, String)>,
}

impl Validate for CatHeaderValidator {
    open spec fn key(&self) -> i32 {
        CATH
    }

    open spec fn accepts(&self, claim: Option<CborValue>) -> bool {
        match claim {
            None => true,
            Some(CborValue::Map(m)) => {
                &&& m@.len() % 2 == 0
                &&& forall|p: int| 0 <= p < m@.len() / 2 ==> header_pair_ok(self.headers@, m@, p)
            },
            Some(_) => false,
        }
    }

    open spec fn refusal(&self, claim: Option<CborValue>) -> ClaimError {
        match claim {
            Some(CborValue::Map(m)) => if m@.len() % 2 != 0 {
                ClaimError::UnexpectedLength
            } else {
                pair_error(self.headers@, m@, first_bad_pair(self.headers@, m@)).unwrap_or(
                    ClaimError::MissingHeaderName,
                )
            },
            _ => ClaimError::InvalidType,
        }
    }

    fn get_claim_key(&self) -> (r: i32) {
        CATH
    }

    fn validate(&self, claim: Option<&CborValue>) -> (r: Result<(), ClaimError>) {
        let map = match claim {
            None => {
                return Ok(());
            },
            Some(CborValue::Map(map)) => map,
            _ => return Err(ClaimError::InvalidType),
        };
        if map.len() % 2 != 0 {
            return Err(ClaimError::UnexpectedLength);
        }
        let pairs: usize = map.len() / 2;
        let mut p: usize = 0;
        while p < pairs
            invariant
                p <= pairs,
                pairs == map@.len() / 2,
                map@.len() % 2 == 0,
                present(claim) == Some(CborValue::Map(*map)),
                forall|q: int| 0 <= q < p ==> header_pair_ok(self.headers@, map@, q),
            decreases pairs - p,
        {
            if p > 1073741822 {
                assert(!header_pair_ok(self.headers@, map@, p as int));
                return Err(ClaimError::MissingHeaderName);
            }
            let name_key: i32 = (2 * p + 1) as i32;
            let header_name = match map.get(&name_key) {
                Some(v) => match as_string(v) {
                    Some(s) => s,
                    None => {
                        assert(!header_pair_ok(self.headers@, map@, p as int));
                        return Err(ClaimError::MissingHeaderName);
                    },
                },
                None => {
                    assert(!header_pair_ok(self.headers@, map@, p as int));
                    return Err(ClaimError::MissingHeaderName);
                },
            };
            let header_value = match map.get(&(name_key + 1)) {
                Some(v) => as_match_kind(v),
                None => None,
            };
            match find_header(&self.headers, &header_name) {
                None => {
                    assert(!header_pair_ok(self.headers@, map@, p as int));
                    return Err(ClaimError::HeaderMissing);
                },
                Some(value) => match header_value {
                    None => {},
                    Some(mk) => {
                        if mk.validate(value).is_err() {
                            assert(!header_pair_ok(self.headers@, map@, p as int));
                            return Err(ClaimError::HeaderValueInvalid);
                        }
                    },
                },
            }
            assert(header_pair_ok(self.headers@, map@, p as int));
            p = p + 1;
        }
        Ok(())
    }
}

/// A country code as compared: upper-cased, then trimmed.
pub open spec fn normalized(s: Seq<char>) -> Seq<char> {
    trimmed(upper_of(s))
}

/// Upper-cases, then trims, a country code.
pub fn normalize_country(s: &str) -> (r: String)
    ensures
        r@ == normalized(s@),
{
    let upper = uppercase(s);
    trim(upper.as_str())
}

/// The normalised text entries of a sequence of values; other entries are skipped.
pub open spec fn normalized_texts(s: Seq<CborValue>) -> Seq<Seq<char>>
    decreases s.len(),
{
    if s.len() == 0 {
        Seq::empty()
    } else {
        let rest = normalized_texts(s.drop_last());
        match s.last() {
            CborValue::Text(t) => rest.push(normalized(t@)),
            _ => rest,
        }
    }
}

/// Whether `country` is one of `allowed`, compared exactly.
pub fn country_listed(allowed: &Vec<String>, country: &String) -> (r: bool)
    ensures
        r == crate::text::views(allowed@).contains(country@),
{
    let mut i: usize = 0;
    while i < allowed.len()
        invariant
            i <= allowed@.len(),
            forall|j: int| 0 <= j < i ==> (#[trigger] allowed@[j])@ != country@,
        decreases allowed.len() - i,
    {
        if compare_strings(allowed[i].as_str(), country.as_str()) == 0 {
            assert(crate::text::views(allowed@)[i as int] == country@);
            return true;
        }
        i = i + 1;
    }
    proof {
        let v = crate::text::views(allowed@);
        if v.contains(country@) {
            let q = choose|q: int| 0 <= q < v.len() && v[q] == country@;
            assert(allowed@[q]@ == v[q]);
        }
    }
    false
}

/// Checks the geography claim: an array of country codes, of which the
/// request's must be one, compared without regard to case or surrounding
/// whitespace. An empty array restricts nothing.
pub struct CatCountryValidator {
    pub country: String,
}

impl Validate for CatCountryValidator {
    open spec fn key(&self) -> i32 {
        CATGEOISO3166
    }

    open spec fn accepts(&self, claim: Option<CborValue>) -> bool {
        match claim {
            None => true,
            Some(CborValue::Array(a)) => a@.len() == 0 || normalized_texts(a@).contains(
                normalized(self.country@),
            ),
            Some(_) => false,
        }
    }

    open spec fn refusal(&self, claim: Option<CborValue>) -> ClaimError {
        match claim {
            Some(CborValue::Array(_)) => ClaimError::CountryNotGranted,
            _ => ClaimError::InvalidType,
        }
    }

    fn get_claim_key(&self) -> (r: i32) {
        CATGEOISO3166
    }

    fn validate(&self, claim: Option<&CborValue>) -> (r: Result<(), ClaimError>) {
        let allowed_countries = match claim {
            None => return Ok(()),
            Some(CborValue::Array(c)) => {
                if c.len() == 0 {
                    return Ok(());
                }
                c
            },
            _ => return Err(ClaimError::InvalidType),
        };
        let mut allowed: Vec<String> = Vec::new();
        let mut i: usize = 0;
        assert(allowed_countries@.take(0) =~= Seq::<CborValue>::empty());
        assert(crate::text::views(allowed@) =~= Seq::<Seq<char>>::empty());
        while i < allowed_countries.len()
            invariant
                i <= allowed_countries@.len(),
                crate::text::views(allowed@) == normalized_texts(allowed_countries@.take(i as int)),
            decreases allowed_countries.len() - i,
        {
            assert(allowed_countries@.take(i + 1).drop_last() =~= allowed_countries@.take(i as int));
            match as_string(&allowed_countries[i]) {
                Some(t) => {
                    let n = normalize_country(t.as_str());
                    let ghost before = allowed@;
                    allowed.push(n);
                    assert(crate::text::views(allowed@) =~= crate::text::views(before).push(n@));
                },
                None => {},
            }
            i = i + 1;
        }
        assert(allowed_countries@.take(i as int) =~= allowed_countries@);
        let country = normalize_country(self.country.as_str());
        if country_listed(&allowed, &country) {
            Ok(())
        } else {
            Err(ClaimError::CountryNotGranted)
        }
    }
}

/// Checks the client-network claim, an array of network entries: a present
/// claim needs a client address that parsed, and, unless the array is empty,
/// an entry that admits it. `client_ip` is `None` when the request's address
/// did not parse.
pub struct CatNipValidator {
    pub client_ip: Option<IpAddress>,
}

/// Some decoded entry admits `ip`.
pub open spec fn some_entry_admits(entries: Seq<NetworkAddress>, ip: IpAddress) -> bool {
    exists|i: int| 0 <= i < entries.len() && address_admits(#[trigger] entries[i], ip)
}

impl Validate for CatNipValidator {
    open spec fn key(&self) -> i32 {
        CATNIP
    }

    open spec fn accepts(&self, claim: Option<CborValue>) -> bool {
        match claim {
            None => true,
            Some(v) => self.client_ip matches Some(ip) && match v {
                CborValue::Array(a) => a@.len() == 0 || some_entry_admits(decoded_addresses(a@), ip),
                _ => false,
            },
        }
    }

    open spec fn refusal(&self, claim: Option<CborValue>) -> ClaimError {
        if self.client_ip is None {
            ClaimError::InvalidClientIp
        } else {
            match claim {
                Some(CborValue::Array(_)) => ClaimError::IpNotAllowed,
                _ => ClaimError::InvalidType,
            }
        }
    }

    fn get_claim_key(&self) -> (r: i32) {
        CATNIP
    }

    fn validate(&self, claim: Option<&CborValue>) -> (r: Result<(), ClaimError>) {
        let value = match claim {
            None => return Ok(()),
            Some(c) => c,
        };
        let ip = match &self.client_ip {
            Some(ip) => ip,
            None => return Err(ClaimError::InvalidClientIp),
        };
        assert(self.client_ip == Some(*ip));
        match value {
            CborValue::Array(a) => {
                if a.len() == 0 {
                    return Ok(());
                }
            },
            _ => return Err(ClaimError::InvalidType),
        }
        match as_network_addresses(value) {
            None => Err(ClaimError::InvalidType),
            Some(valid_ranges) => {
                let mut i: usize = 0;
                while i < valid_ranges.len()
                    invariant
                        i <= valid_ranges@.len(),
                        forall|j: int| 0 <= j < i ==> !address_admits(#[trigger] valid_ranges@[j], *ip),
                        self.client_ip == Some(*ip),
                        claim == Some(value),
                        match *value {
                            CborValue::Array(a) => a@.len() > 0 && valid_ranges@ == decoded_addresses(a@),
                            _ => false,
                        },
                    decreases valid_ranges.len() - i,
                {
                    if valid_ranges[i].admits(ip) {
                        assert(some_entry_admits(valid_ranges@, *ip));
                        return Ok(());
                    }
                    i = i + 1;
                }
                Err(ClaimError::IpNotAllowed)
            },
        }
    }
}

/// The validators a request runs, in the order given.
pub enum SyncValidator {
    Version(CatVersionValidator),
    Header(CatHeaderValidator),
    Nip(CatNipValidator),
    Country(CatCountryValidator),
}

impl Validate for SyncValidator {
    open spec fn key(&self) -> i32 {
        match self {
            SyncValidator::Version(v) => v.key(),
            SyncValidator::Header(v) => v.key(),
            SyncValidator::Nip(v) => v.key(),
            SyncValidator::Country(v) => v.key(),
        }
    }

    open spec fn accepts(&self, claim: Option<CborValue>) -> bool {
        match self {
            SyncValidator::Version(v) => v.accepts(claim),
            SyncValidator::Header(v) => v.accepts(claim),
            SyncValidator::Nip(v) => v.accepts(claim),
            SyncValidator::Country(v) => v.accepts(claim),
        }
    }

    open spec fn refusal(&self, claim: Option<CborValue>) -> ClaimError {
        match self {
            SyncValidator::Version(v) => v.refusal(claim),
            SyncValidator::Header(v) => v.refusal(claim),
            SyncValidator::Nip(v) => v.refusal(claim),
            SyncValidator::Country(v) => v.refusal(claim),
        }
    }

    fn get_claim_key(&self) -> (r: i32) {
        match self {
            SyncValidator::Version(v) => v.get_claim_key(),
            SyncValidator::Header(v) => v.get_claim_key(),
            SyncValidator::Nip(v) => v.get_claim_key(),
            SyncValidator::Country(v) => v.get_claim_key(),
        }
    }

    fn validate(&self, claim: Option<&CborValue>) -> (r: Result<(), ClaimError>) {
        match self {
            SyncValidator::Version(v) => v.validate(claim),
            SyncValidator::Header(v) => v.validate(claim),
            SyncValidator::Nip(v) => v.validate(claim),
            SyncValidator::Country(v) => v.validate(claim),
        }
    }
}

} // verus!
