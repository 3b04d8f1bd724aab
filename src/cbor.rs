//! Projections of CBOR claim values into the shapes the validators read.
use vstd::prelude::*;

use common_access_token::CborValue;

use crate::matching::MatchKind;
use crate::network::{IpNetwork, net_contains, IpAddress};

verus! {

broadcast use vstd::std_specs::btree::group_btree_axioms;

#[verifier::external_type_specification]
pub struct ExCborValue(CborValue);

/// The text a value holds, if it is one.
pub fn as_string(v: &CborValue) -> (r: Option<String>)
    ensures
        r == match *v {
            CborValue::Text(s) => Some(s),
            _ => None::<String>,
        },
{
    match v {
        CborValue::Text(s) => Some(s.clone()),
        _ => None,
    }
}

/// The integer a value holds, if it is one.
pub fn as_i64(v: &CborValue) -> (r: Option<i64>)
    ensures
        r == match *v {
            CborValue::Integer(i) => Some(i),
            _ => None::<i64>,
        },
{
    match v {
        CborValue::Integer(i) => Some(*i),
        _ => None,
    }
}

/// The match kind that a `{1: kind, 2: pattern}` map encodes, kinds 0 to 4
/// standing for exact, prefix, suffix, contains and regex.
pub open spec fn match_kind_of(v: CborValue) -> Option<MatchKind> {
    match v {
        CborValue::Map(m) => {
            if m@.contains_key(1i32) && m@.contains_key(2i32) {
                match (m@[1i32], m@[2i32]) {
                    (CborValue::Integer(k), CborValue::Text(p)) => {
                        if k == 0 {
                            Some(MatchKind::Exact(p))
                        } else if k == 1 {
                            Some(MatchKind::Prefix(p))
                        } else if k == 2 {
                            Some(MatchKind::Suffix(p))
                        } else if k == 3 {
                            Some(MatchKind::Contains(p))
                        } else if k == 4 {
                            Some(MatchKind::RegEx(p))
                        } else {
                            None
                        }
                    },
                    _ => None,
                }
            } else {
                None
            }
        },
        _ => None,
    }
}

/// Reads a match kind; `None` on any other shape.
pub fn as_match_kind(v: &CborValue) -> (r: Option<MatchKind>)
    ensures
        r == match_kind_of(*v),
{
    match v {
        CborValue::Map(m) => {
            let operant = match m.get(&1) {
                Some(o) => o,
                None => return None,
            };
            let match_value = match m.get(&2) {
                Some(p) => p,
                None => return None,
            };
            let match_value = match as_string(match_value) {
                Some(p) => p,
                None => return None,
            };
            match operant {
                CborValue::Integer(k) => {
                    if *k == 0 {
                        Some(MatchKind::Exact(match_value))
                    } else if *k == 1 {
                        Some(MatchKind::Prefix(match_value))
                    } else if *k == 2 {
                        Some(MatchKind::Suffix(match_value))
                    } else if *k == 3 {
                        Some(MatchKind::Contains(match_value))
                    } else if *k == 4 {
                        Some(MatchKind::RegEx(match_value))
                    } else {
                        None
                    }
                },
                _ => None,
            }
        },
        _ => None,
    }
}

/// A network entry of a client-network claim.
#[derive(Clone, Copy, Debug, PartialEq, Eq, Structural)]
pub enum NetworkAddress {
    IPv4Prefix(IpNetwork),
    IPv4(u32),
    IPv6Prefix(IpNetwork),
    IPv6(u128),
    ASN(u32),
}

/// Whether an entry admits `ip`. AS-number entries admit nothing here.
pub open spec fn address_admits(a: NetworkAddress, ip: IpAddress) -> bool {
    match a {
        NetworkAddress::IPv4Prefix(n) => net_contains(n, ip),
        NetworkAddress::IPv6Prefix(n) => net_contains(n, ip),
        NetworkAddress::IPv4(x) => ip == IpAddress::V4(x),
        NetworkAddress::IPv6(x) => ip == IpAddress::V6(x),
        NetworkAddress::ASN(_) => false,
    }
}

impl NetworkAddress {
    /// Whether the entry admits `ip`.
    pub fn admits(&self, ip: &IpAddress) -> (r: bool)
        ensures
            r == address_admits(*self, *ip),
    {
        match self {
            NetworkAddress::IPv4Prefix(n) => n.contains(ip),
            NetworkAddress::IPv6Prefix(n) => n.contains(ip),
            NetworkAddress::IPv4(x) => *ip == IpAddress::V4(*x),
            NetworkAddress::IPv6(x) => *ip == IpAddress::V6(*x),
            NetworkAddress::ASN(_) => false,
        }
    }
}

/// 256 to the power `n`.
pub open spec fn pow256(n: nat) -> nat
    decreases n,
{
    if n == 0 {
        1
    } else {
        256 * pow256((n - 1) as nat)
    }
}

/// The big-endian value of a byte sequence.
pub open spec fn be_value(s: Seq<u8>) -> nat
    decreases s.len(),
{
    if s.len() == 0 {
        0
    } else {
        (be_value(s.drop_last()) * 256 + s.last()) as nat
    }
}

/// `s` followed by zero bytes up to `width`.
pub open spec fn zero_padded(s: Seq<u8>, width: nat) -> Seq<u8> {
    Seq::new(width, |i: int| if i < s.len() { s[i] } else { 0u8 })
}

pub proof fn lemma_pow256_mono(a: nat, b: nat)
    requires
        a <= b,
    ensures
        pow256(a) <= pow256(b),
    decreases b,
{
    if a < b {
        lemma_pow256_mono(a, (b - 1) as nat);
    }
}

/// The big-endian value of `bytes` padded with zeros to `width` bytes.
fn padded_value(bytes: &Vec<u8>, width: usize) -> (r: u128)
    requires
        bytes@.len() <= width <= 16,
    ensures
        r == be_value(zero_padded(bytes@, width as nat)),
        r < pow256(width as nat),
{
    let ghost padded = zero_padded(bytes@, width as nat);
    proof {
        reveal_with_fuel(pow256, 17);
        lemma_pow256_mono(width as nat, 16);
        assert(pow256(16) == 0x1_0000_0000_0000_0000_0000_0000_0000_0000nat);
    }
    let mut acc: u128 = 0;
    let mut i: usize = 0;
    assert(padded.take(0) =~= Seq::<u8>::empty());
    while i < width
        invariant
            i <= width <= 16,
            bytes@.len() <= width,
            padded == zero_padded(bytes@, width as nat),
            acc == be_value(padded.take(i as int)),
            acc < pow256(i as nat),
            pow256(width as nat) <= 0x1_0000_0000_0000_0000_0000_0000_0000_0000nat,
        decreases width - i,
    {
        let b: u8 = if i < bytes.len() { bytes[i] } else { 0 };
        proof {
            assert(padded.take(i + 1).drop_last() =~= padded.take(i as int));
            assert(padded[i as int] == b);
            lemma_pow256_mono((i + 1) as nat, width as nat);
            let p = pow256(i as nat);
            assert(acc * 256 + b < p * 256) by (nonlinear_arith)
                requires
                    acc < p,
                    b < 256,
            ;
        }
        acc = acc * 256 + b as u128;
        i = i + 1;
    }
    assert(padded.take(i as int) =~= padded);
    acc
}

/// The network entry a value encodes: a 4- or 16-byte address, a
/// `[prefix length, prefix bytes]` pair (up to 4 bytes IPv4, up to 16 IPv6, the
/// bytes zero-padded, the length from 0 to the address width), or an AS number.
pub open spec fn network_address_of(v: CborValue) -> Option<NetworkAddress> {
    match v {
        CborValue::Integer(n) => {
            if 0 <= n <= u32::MAX {
                Some(NetworkAddress::ASN(n as u32))
            } else {
                None
            }
        },
        CborValue::Bytes(b) => {
            if b@.len() == 16 {
                Some(NetworkAddress::IPv6(be_value(zero_padded(b@, 16)) as u128))
            } else if b@.len() == 4 {
                Some(NetworkAddress::IPv4(be_value(zero_padded(b@, 4)) as u32))
            } else {
                None
            }
        },
        CborValue::Array(a) => {
            if a@.len() == 2 {
                match (a@[0], a@[1]) {
                    (CborValue::Integer(n), CborValue::Bytes(b)) => {
                        let len = n as u8;
                        if b@.len() <= 4 {
                            if 0 <= n <= 32 {
                                Some(NetworkAddress::IPv4Prefix(IpNetwork::V4 {
                                    addr: be_value(zero_padded(b@, 4)) as u32,
                                    prefix_len: len,
                                }))
                            } else {
                                None
                            }
                        } else if b@.len() <= 16 {
                            if 0 <= n <= 128 {
                                Some(NetworkAddress::IPv6Prefix(IpNetwork::V6 {
                                    addr: be_value(zero_padded(b@, 16)) as u128,
                                    prefix_len: len,
                                }))
                            } else {
                                None
                            }
                        } else {
                            None
                        }
                    },
                    _ => None,
                }
            } else {
                None
            }
        },
        _ => None,
    }
}

/// Decodes a network entry; `None` on any other shape.
pub fn as_network_address(v: &CborValue) -> (r: Option<NetworkAddress>)
    ensures
        r == network_address_of(*v),
{
    match v {
        CborValue::Integer(n) => {
            if 0 <= *n && *n <= u32::MAX as i64 {
                Some(NetworkAddress::ASN(*n as u32))
            } else {
                None
            }
        },
        CborValue::Bytes(b) => {
            if b.len() == 16 {
                Some(NetworkAddress::IPv6(padded_value(b, 16)))
            } else if b.len() == 4 {
                Some(NetworkAddress::IPv4(padded_value(b, 4) as u32))
            } else {
                None
            }
        },
        CborValue::Array(arr) => {
            if arr.len() != 2 {
                return None;
            }
            match (&arr[0], &arr[1]) {
                (CborValue::Integer(n), CborValue::Bytes(prefix_bytes)) => {
                    if *n < 0 || *n > 128 {
                        return None;
                    }
                    let len: u8 = *n as u8;
                    if prefix_bytes.len() <= 4 {
                        if len <= 32 {
                            Some(NetworkAddress::IPv4Prefix(IpNetwork::V4 {
                                addr: padded_value(prefix_bytes, 4) as u32,
                                prefix_len: len,
                            }))
                        } else {
                            None
                        }
                    } else if prefix_bytes.len() <= 16 {
                        if len <= 128 {
                            Some(NetworkAddress::IPv6Prefix(IpNetwork::V6 {
                                addr: padded_value(prefix_bytes, 16),
                                prefix_len: len,
                            }))
                        } else {
                            None
                        }
                    } else {
                        None
                    }
                },
                _ => None,
            }
        },
        _ => None,
    }
}

/// The entries of a sequence of values that decode, in order.
pub open spec fn decoded_addresses(s: Seq<CborValue>) -> Seq<NetworkAddress>
    decreases s.len(),
{
    if s.len() == 0 {
        Seq::empty()
    } else {
        let rest = decoded_addresses(s.drop_last());
        match network_address_of(s.last()) {
            Some(a) => rest.push(a),
            None => rest,
        }
    }
}

/// Decodes the entries of an array value, skipping those that do not decode;
/// `None` when the value is not an array.
pub fn as_network_addresses(v: &CborValue) -> (r: Option<Vec<NetworkAddress>>)
    ensures
        match *v {
            CborValue::Array(a) => r matches Some(out) && out@ == decoded_addresses(a@),
            _ => r is None,
        },
{
    match v {
        CborValue::Array(values) => {
            let mut out: Vec<NetworkAddress> = Vec::new();
            let mut i: usize = 0;
            assert(values@.take(0) =~= Seq::<CborValue>::empty());
            while i < values.len()
                invariant
                    i <= values@.len(),
                    out@ == decoded_addresses(values@.take(i as int)),
                decreases values.len() - i,
            {
                assert(values@.take(i + 1).drop_last() =~= values@.take(i as int));
                match as_network_address(&values[i]) {
                    Some(a) => out.push(a),
                    None => {},
                }
                i = i + 1;
            }
            assert(values@.take(i as int) =~= values@);
            Some(out)
        },
        _ => None,
    }
}

} // verus!
