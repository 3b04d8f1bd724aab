use cat_validator::kv::KvValidator;
use cat_validator::network::{IpAddress, IpNetwork};
use cat_validator::persistence::{Asn, BlockedClaimType, BlockedData, Persistence};

fn strings(v: &[&str]) -> Vec<String> {
    v.iter().map(|s| s.to_string()).collect()
}

fn v4(a: u8, b: u8, c: u8, d: u8) -> IpAddress {
    IpAddress::V4(u32::from_be_bytes([a, b, c, d]))
}

#[test]
fn missing_subject_follows_requirement() {
    let kv = KvValidator::new(BlockedData::new());
    assert!(kv.is_subject_blocked(&None, true));
    assert!(!kv.is_subject_blocked(&None, false));
}

#[test]
fn subject_lookup_on_unsorted_snapshot() {
    let mut data = BlockedData::new();
    data.subjects = strings(&["zed", "amy", "bob"]);
    data.any_subjects = true;
    let kv = KvValidator::new(data);
    assert!(kv.is_subject_blocked(&Some("bob".to_string()), true));
    assert!(!kv.is_subject_blocked(&Some("carl".to_string()), true));
}

#[test]
fn clear_flag_answers_false() {
    let mut data = BlockedData::new();
    data.countries = strings(&["FR"]);
    data.cidrs = strings(&["10.0.0.0/8"]);
    data.any_countries = false;
    data.any_cidrs = false;
    let kv = KvValidator::new(data);
    assert!(!kv.is_country_blocked(&"FR".to_string()));
    assert!(!kv.is_ip_blocked(&v4(10, 1, 1, 1)));
    let mut data = BlockedData::new();
    data.countries = strings(&["FR"]);
    data.any_countries = true;
    let kv = KvValidator::new(data);
    assert!(kv.is_country_blocked(&"FR".to_string()));
    assert!(!kv.is_country_blocked(&"fr".to_string()));
}

#[test]
fn user_agent_lookup() {
    let mut data = BlockedData::new();
    Persistence::add_items_to_blocklist(&mut data, BlockedClaimType::UserAgent, strings(&["BadBot/1.0"]));
    let kv = KvValidator::new(data);
    assert!(kv.is_user_agent_blocked(&"BadBot/1.0".to_string()));
    assert!(!kv.is_user_agent_blocked(&"GoodBot".to_string()));
}

#[test]
fn ip_blocked_by_cidr() {
    let mut data = BlockedData::new();
    Persistence::add_items_to_blocklist(
        &mut data,
        BlockedClaimType::Cidr,
        strings(&["not-a-cidr", "192.0.2.0/24", "2001:db8::/32"]),
    );
    let kv = KvValidator::new(data);
    assert!(kv.is_ip_blocked(&v4(192, 0, 2, 10)));
    assert!(!kv.is_ip_blocked(&v4(192, 0, 3, 10)));
    assert!(kv.is_ip_blocked(&IpAddress::V6(0x2001_0db8_0000_0000_0000_0000_0000_0001)));
    assert!(!kv.is_ip_blocked(&IpAddress::V6(0x2001_0db9_0000_0000_0000_0000_0000_0001)));
}

#[test]
fn ip_blocked_by_asn_cidrs() {
    let mut data = BlockedData::new();
    Persistence::add_asns_to_blocklist(&mut data, vec![Asn { asn: 64500, cidrs: strings(&["192.0.2.0/24"]) }]);
    let kv = KvValidator::new(data);
    assert!(kv.is_ip_blocked_by_asn(&v4(192, 0, 2, 10)));
    assert!(!kv.is_ip_blocked(&v4(192, 0, 2, 10)));
    assert!(!kv.is_ip_blocked_by_asn(&v4(198, 51, 100, 1)));
}

#[test]
fn network_containment() {
    let net = IpNetwork::V4 { addr: u32::from_be_bytes([10, 1, 2, 3]), prefix_len: 8 };
    assert!(net.contains(&v4(10, 200, 0, 1)));
    assert!(!net.contains(&v4(11, 0, 0, 1)));
    assert!(!net.contains(&IpAddress::V6(1)));
    let all = IpNetwork::V4 { addr: 0, prefix_len: 0 };
    assert!(all.contains(&v4(255, 255, 255, 255)));
    let host = IpNetwork::V4 { addr: u32::from_be_bytes([10, 0, 0, 1]), prefix_len: 32 };
    assert!(host.contains(&v4(10, 0, 0, 1)));
    assert!(!host.contains(&v4(10, 0, 0, 2)));
    let bad = IpNetwork::V4 { addr: 0, prefix_len: 33 };
    assert!(!bad.contains(&v4(0, 0, 0, 0)));
}
