//! IP addresses and networks as plain integers, prefix containment, and the
//! parsing of CIDR text.
use vstd::prelude::*;

verus! {

/// An IP address: IPv4 as a 32-bit, IPv6 as a 128-bit integer.
#[derive(Clone, Copy, Debug, PartialEq, Eq, Structural)]
pub enum IpAddress {
    V4(u32),
    V6(u128),
}

/// An IP network: an address and the length of its prefix in bits. The host
/// bits of the address are kept as given.
#[derive(Clone, Copy, Debug, PartialEq, Eq, Structural)]
#[allow(inconsistent_fields)]
pub enum IpNetwork {
    V4 { addr: u32, prefix_len: u8 },
    V6 { addr: u128, prefix_len: u8 },
}

/// `n` contains `ip`: same family, and the first `prefix_len` bits agree.
pub open spec fn net_contains(n: IpNetwork, ip: IpAddress) -> bool {
    match (n, ip) {
        (IpNetwork::V4 { addr, prefix_len }, IpAddress::V4(a)) => {
            prefix_len <= 32 && (prefix_len == 0 || (addr >> ((32 - prefix_len) as u32)) == (a >> ((
            32 - prefix_len) as u32)))
        },
        (IpNetwork::V6 { addr, prefix_len }, IpAddress::V6(a)) => {
            prefix_len <= 128 && (prefix_len == 0 || (addr >> ((128 - prefix_len) as u32)) == (a
                >> ((128 - prefix_len) as u32)))
        },
        _ => false,
    }
}

impl IpNetwork {
    /// Whether the network contains `ip`.
    pub fn contains(&self, ip: &IpAddress) -> (r: bool)
        ensures
            r == net_contains(*self, *ip),
    {
        match (self, ip) {
            (IpNetwork::V4 { addr, prefix_len }, IpAddress::V4(a)) => {
                if *prefix_len > 32 {
                    false
                } else if *prefix_len == 0 {
                    true
                } else {
                    let shift: u32 = 32 - *prefix_len as u32;
                    (*addr >> shift) == (*a >> shift)
                }
            },
            (IpNetwork::V6 { addr, prefix_len }, IpAddress::V6(a)) => {
                if *prefix_len > 128 {
                    false
                } else if *prefix_len == 0 {
                    true
                } else {
                    let shift: u32 = 128 - *prefix_len as u32;
                    (*addr >> shift) == (*a >> shift)
                }
            },
            _ => false,
        }
    }
}

/// What `ipnet::IpNet`'s parser makes of a text, as address and prefix length.
pub uninterp spec fn cidr_of(s: Seq<char>) -> Option<IpNetwork>;

/// Relies on `<ipnet::IpNet as FromStr>::from_str`: the result depends on the
/// text alone.
#[verifier::external_body]
pub(crate) fn parse_cidr(s: &str) -> (r: Option<IpNetwork>)
    ensures
        r == cidr_of(s@),
{
    match s.parse::<ipnet::IpNet>() {
        Ok(ipnet::IpNet::V4(n)) => Some(IpNetwork::V4 { addr: u32::from(n.addr()), prefix_len: n.prefix_len() }),
        Ok(ipnet::IpNet::V6(n)) => Some(IpNetwork::V6 { addr: u128::from(n.addr()), prefix_len: n.prefix_len() }),
        Err(_) => None,
    }
}

/// Some CIDR among `cidrs` parses to a network that contains `ip`.
pub open spec fn some_cidr_contains(cidrs: Seq<String>, ip: IpAddress) -> bool {
    exists|i: int| 0 <= i < cidrs.len() && (#[trigger] cidr_of(cidrs[i]@) matches Some(n) && net_contains(n, ip))
}

/// Whether a CIDR of the list contains `ip`; texts that do not parse are skipped.
pub fn any_cidr_contains(cidrs: &Vec<String>, ip: &IpAddress) -> (r: bool)
    ensures
        r == some_cidr_contains(cidrs@, *ip),
{
    let mut i: usize = 0;
    while i < cidrs.len()
        invariant
            i <= cidrs@.len(),
            forall|j: int| 0 <= j < i ==> !(#[trigger] cidr_of(cidrs@[j]@) matches Some(n) && net_contains(n, *ip)),
        decreases cidrs.len() - i,
    {
        match parse_cidr(cidrs[i].as_str()) {
            Some(n) => {
                if n.contains(ip) {
                    return true;
                }
            },
            None => {},
        }
        i = i + 1;
    }
    false
}

} // verus!
