//! Denylist queries over a normalised snapshot.
use vstd::prelude::*;

use crate::network::{any_cidr_contains, some_cidr_contains, IpAddress};
use crate::persistence::{Asn, BlockedClaimType, BlockedData};
use crate::sorted::{normalize_list, search_sorted, set_of};
use crate::text::{lemma_lex_order, strictly_sorted, views};

verus! {

/// Some CIDR of some AS-number record contains `ip`.
pub open spec fn some_asn_contains(asns: Seq<Asn>, ip: IpAddress) -> bool {
    exists|i: int| 0 <= i < asns.len() && some_cidr_contains(#[trigger] asns[i].cidrs@, ip)
}

/// Answers "is this blocked?" over one denylist snapshot.
pub struct KvValidator {
    blocked_data: BlockedData,
}

/// `a` carries the flags of `b`.
pub open spec fn same_flags(a: BlockedData, b: BlockedData) -> bool {
    &&& a.any == b.any
    &&& a.any_asns == b.any_asns
    &&& a.any_cidrs == b.any_cidrs
    &&& a.any_countries == b.any_countries
    &&& a.any_subjects == b.any_subjects
    &&& a.any_user_agents == b.any_user_agents
}

impl KvValidator {
    /// The snapshot the queries run over.
    pub closed spec fn data(&self) -> BlockedData {
        self.blocked_data
    }

    /// The lists that are searched by bisection are strictly sorted.
    pub closed spec fn wf(&self) -> bool {
        &&& strictly_sorted(views(self.blocked_data.subjects@))
        &&& strictly_sorted(views(self.blocked_data.countries@))
        &&& strictly_sorted(views(self.blocked_data.user_agents@))
    }

    /// Takes a snapshot as given: its flags, CIDRs and AS-number records stay
    /// as they are; the subject, country and user-agent lists are sorted and
    /// freed of duplicates so that binary search applies.
    pub fn new(data: BlockedData) -> (r: KvValidator)
        ensures
            r.wf(),
            forall|k: BlockedClaimType| r.data().text_set(k) == data.text_set(k),
            same_flags(r.data(), data),
            r.data().cidrs@ == data.cidrs@,
            r.data().asns@ == data.asns@,
    {
        let mut data = data;
        normalize_list(&mut data.subjects);
        normalize_list(&mut data.countries);
        normalize_list(&mut data.user_agents);
        KvValidator { blocked_data: data }
    }

    /// Whether anything at all is blocked.
    pub fn any(&self) -> (r: bool)
        requires
            self.wf(),
        ensures
            r == self.data().any,
    {
        self.blocked_data.any
    }

    /// A missing subject is blocked exactly when a subject is required;
    /// otherwise the subject is looked up.
    pub fn is_subject_blocked(&self, value: &Option<String>, subject_required: bool) -> (r: bool)
        requires
            self.wf(),
        ensures
            r == match value {
                None => subject_required,
                Some(s) => self.data().any_subjects && self.data().text_set(BlockedClaimType::Subject).contains(s@),
            },
    {
        match value {
            None => subject_required,
            Some(s) => {
                if !self.blocked_data.any_subjects {
                    return false;
                }
                lookup(&self.blocked_data.subjects, s)
            },
        }
    }

    pub fn is_country_blocked(&self, value: &String) -> (r: bool)
        requires
            self.wf(),
        ensures
            r == (self.data().any_countries && self.data().text_set(BlockedClaimType::Country).contains(value@)),
    {
        if !self.blocked_data.any_countries {
            return false;
        }
        lookup(&self.blocked_data.countries, value)
    }

    pub fn is_user_agent_blocked(&self, value: &String) -> (r: bool)
        requires
            self.wf(),
        ensures
            r == (self.data().any_user_agents && self.data().text_set(BlockedClaimType::UserAgent).contains(value@)),
    {
        if !self.blocked_data.any_user_agents {
            return false;
        }
        lookup(&self.blocked_data.user_agents, value)
    }

    /// Whether a blocked CIDR contains `ip`; CIDR texts that do not parse are skipped.
    pub fn is_ip_blocked(&self, value: &IpAddress) -> (r: bool)
        requires
            self.wf(),
        ensures
            r == (self.data().any_cidrs && some_cidr_contains(self.data().cidrs@, *value)),
    {
        if !self.blocked_data.any_cidrs {
            return false;
        }
        any_cidr_contains(&self.blocked_data.cidrs, value)
    }

    /// Whether a CIDR announced for a blocked AS number contains `ip`.
    pub fn is_ip_blocked_by_asn(&self, value: &IpAddress) -> (r: bool)
        requires
            self.wf(),
        ensures
            r == (self.data().any_asns && some_asn_contains(self.data().asns@, *value)),
    {
        if !self.blocked_data.any_asns {
            return false;
        }
        let mut i: usize = 0;
        while i < self.blocked_data.asns.len()
            invariant
                i <= self.blocked_data.asns@.len(),
                self.blocked_data.any_asns,
                forall|j: int| 0 <= j < i ==> !some_cidr_contains(#[trigger] self.blocked_data.asns@[j].cidrs@, *value),
            decreases self.blocked_data.asns.len() - i,
        {
            if any_cidr_contains(&self.blocked_data.asns[i].cidrs, value) {
                return true;
            }
            i = i + 1;
        }
        false
    }
}

/// Whether `value` is in a strictly sorted list.
fn lookup(list: &Vec<String>, value: &String) -> (r: bool)
    requires
        strictly_sorted(views(list@)),
    ensures
        r == set_of(list@).contains(value@),
{
    match search_sorted(list, value.as_str()) {
        Ok(i) => {
            assert(views(list@)[i as int] == value@);
            true
        },
        Err(_) => {
            proof {
                let s = views(list@);
                if s.contains(value@) {
                    let q = choose|q: int| 0 <= q < s.len() && s[q] == value@;
                    assert(s[q] == list@[q]@);
                    lemma_lex_order(value@, value@, value@);
                }
            }
            false
        },
    }
}

} // verus!
