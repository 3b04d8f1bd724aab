use cat_validator::error::CatError;
use cat_validator::persistence::{Asn, BlockedClaimType, BlockedData, Persistence};

fn strings(v: &[&str]) -> Vec<String> {
    v.iter().map(|s| s.to_string()).collect()
}

#[test]
fn add_subjects_dedups_and_sets_flags() {
    let mut data = BlockedData::new();
    Persistence::add_items_to_blocklist(&mut data, BlockedClaimType::Subject, strings(&["s1", "s2", "s1"]));
    assert_eq!(data.subjects, strings(&["s1", "s2"]));
    assert!(data.any_subjects);
    assert!(data.any);
    assert!(!data.any_countries);
    assert!(!data.any_asns);
}

#[test]
fn add_keeps_lists_sorted() {
    let mut data = BlockedData::new();
    Persistence::add_items_to_blocklist(&mut data, BlockedClaimType::Country, strings(&["DE", "AT", "CH"]));
    Persistence::add_items_to_blocklist(&mut data, BlockedClaimType::Country, strings(&["BE", "ZA", "AT"]));
    assert_eq!(data.countries, strings(&["AT", "BE", "CH", "DE", "ZA"]));
    assert!(data.any_countries);
}

#[test]
fn add_present_value_is_noop() {
    let mut data = BlockedData::new();
    Persistence::add_items_to_blocklist(&mut data, BlockedClaimType::UserAgent, strings(&["curl", "wget"]));
    Persistence::add_items_to_blocklist(&mut data, BlockedClaimType::UserAgent, strings(&["curl"]));
    assert_eq!(data.user_agents, strings(&["curl", "wget"]));
}

#[test]
fn remove_absent_value_is_noop() {
    let mut data = BlockedData::new();
    Persistence::add_items_to_blocklist(&mut data, BlockedClaimType::Cidr, strings(&["10.0.0.0/8"]));
    Persistence::remove_items_from_blocklist(&mut data, BlockedClaimType::Cidr, strings(&["192.0.2.0/24"]));
    assert_eq!(data.cidrs, strings(&["10.0.0.0/8"]));
    assert!(data.any_cidrs);
}

#[test]
fn remove_is_idempotent_and_clears_flags() {
    let mut data = BlockedData::new();
    Persistence::add_items_to_blocklist(&mut data, BlockedClaimType::Subject, strings(&["a", "b"]));
    Persistence::remove_items_from_blocklist(&mut data, BlockedClaimType::Subject, strings(&["a", "b"]));
    assert!(data.subjects.is_empty());
    assert!(!data.any_subjects);
    assert!(!data.any);
    Persistence::remove_items_from_blocklist(&mut data, BlockedClaimType::Subject, strings(&["a", "b"]));
    assert!(data.subjects.is_empty());
}

#[test]
fn optimize_sorts_dedups_and_recomputes_flags() {
    let mut data = BlockedData::new();
    data.subjects = strings(&["z", "a", "m", "a"]);
    data.asns = vec![
        Asn { asn: 9, cidrs: strings(&["10.9.0.0/16"]) },
        Asn { asn: 3, cidrs: strings(&["10.3.0.0/16"]) },
        Asn { asn: 9, cidrs: strings(&["10.99.0.0/16"]) },
    ];
    data.any = false;
    data.optimize();
    assert_eq!(data.subjects, strings(&["a", "m", "z"]));
    assert_eq!(data.asns.len(), 2);
    assert_eq!(data.asns[0].asn, 3);
    assert_eq!(data.asns[1].asn, 9);
    assert_eq!(data.asns[1].cidrs, strings(&["10.9.0.0/16"]));
    assert!(data.any_subjects && data.any_asns && data.any);
}

#[test]
fn contains_reports_insertion_point() {
    let mut data = BlockedData::new();
    Persistence::add_items_to_blocklist(&mut data, BlockedClaimType::Subject, strings(&["b", "d"]));
    assert_eq!(data.contains(&BlockedClaimType::Subject, &"d".to_string()), Ok(1));
    assert_eq!(data.contains(&BlockedClaimType::Subject, &"c".to_string()), Err(1));
    assert_eq!(data.contains(&BlockedClaimType::Subject, &"a".to_string()), Err(0));
}

#[test]
fn lexicographic_order_by_code_point() {
    let mut data = BlockedData::new();
    Persistence::add_items_to_blocklist(&mut data, BlockedClaimType::Subject, strings(&["b", "B", "ab", "a", ""]));
    assert_eq!(data.subjects, strings(&["", "B", "a", "ab", "b"]));
}

#[test]
fn add_then_remove_asn_restores_snapshot() {
    let mut data = BlockedData::new();
    Persistence::add_items_to_blocklist(&mut data, BlockedClaimType::Subject, strings(&["s"]));
    Persistence::add_asns_to_blocklist(&mut data, vec![Asn { asn: 100, cidrs: strings(&["10.0.0.0/8"]) }]);
    let to_resolve = Persistence::asns_to_resolve(&data, &vec![64500]);
    assert_eq!(to_resolve, vec![64500]);
    Persistence::add_asns_to_blocklist(&mut data, vec![Asn { asn: 64500, cidrs: strings(&["192.0.2.0/24"]) }]);
    assert_eq!(data.asns.len(), 2);
    assert!(data.contains_asn(64500));
    Persistence::remove_asns_from_blocklist(&mut data, vec![64500]);
    assert_eq!(data.asns.len(), 1);
    assert_eq!(data.asns[0].asn, 100);
    assert_eq!(data.asns[0].cidrs, strings(&["10.0.0.0/8"]));
    assert_eq!(data.subjects, strings(&["s"]));
    assert!(data.any_asns && data.any);
}

#[test]
fn asns_to_resolve_skips_known_and_repeated() {
    let mut data = BlockedData::new();
    Persistence::add_asns_to_blocklist(&mut data, vec![Asn { asn: 7, cidrs: vec![] }]);
    assert_eq!(Persistence::asns_to_resolve(&data, &vec![7, 8, 8, 9, 7]), vec![8, 9]);
}

#[test]
fn existing_asn_record_is_kept() {
    let mut data = BlockedData::new();
    Persistence::add_asns_to_blocklist(&mut data, vec![Asn { asn: 7, cidrs: strings(&["10.7.0.0/16"]) }]);
    Persistence::add_asns_to_blocklist(&mut data, vec![Asn { asn: 7, cidrs: strings(&["10.70.0.0/16"]) }]);
    assert_eq!(data.asns.len(), 1);
    assert_eq!(data.asns[0].cidrs, strings(&["10.7.0.0/16"]));
}

#[test]
fn retain_asn_drops_all_records_of_number() {
    let mut data = BlockedData::new();
    data.asns = vec![Asn { asn: 1, cidrs: vec![] }, Asn { asn: 2, cidrs: vec![] }, Asn { asn: 1, cidrs: vec![] }];
    data.retain_asn(1);
    assert_eq!(data.asns.len(), 1);
    assert_eq!(data.asns[0].asn, 2);
}

#[test]
fn claim_type_parses_case_insensitively() {
    assert_eq!(BlockedClaimType::try_from("subject"), Ok(BlockedClaimType::Subject));
    assert_eq!(BlockedClaimType::try_from("Country"), Ok(BlockedClaimType::Country));
    assert_eq!(BlockedClaimType::try_from("cidr"), Ok(BlockedClaimType::Cidr));
    assert_eq!(BlockedClaimType::try_from("userAgent"), Ok(BlockedClaimType::UserAgent));
    assert_eq!(BlockedClaimType::try_from("asn"), Err(CatError::BadRequest));
}

#[test]
fn claim_type_canonical_names_are_exact() {
    assert_eq!(BlockedClaimType::from_canonical("SUBJECT"), Some(BlockedClaimType::Subject));
    assert_eq!(BlockedClaimType::from_canonical("subject"), None);
}
