//! The denylist snapshot: blocked subjects, countries, CIDRs, user agents and
//! AS numbers, kept sorted and free of duplicates, with the read-modify-write
//! operations that the store applies to it.
use vstd::prelude::*;

use crate::sorted::{lemma_insert_sorted, lemma_remove_sorted, normalize_list, search_sorted, set_of};
use crate::text::{lex_lt, strictly_sorted, upper_of, uppercase, views};
use crate::error::CatError;

verus! {

/// The text categories of the denylist.
#[derive(Clone, Copy, Debug, PartialEq, Eq, Structural)]
pub enum BlockedClaimType {
    Subject,
    Country,
    Cidr,
    UserAgent,
}

/// The canonical (upper-case) name of a category.
pub open spec fn kind_name(kind: BlockedClaimType) -> Seq<char> {
    match kind {
        BlockedClaimType::Subject => "SUBJECT"@,
        BlockedClaimType::Country => "COUNTRY"@,
        BlockedClaimType::Cidr => "CIDR"@,
        BlockedClaimType::UserAgent => "USERAGENT"@,
    }
}

impl BlockedClaimType {
    /// The category whose canonical name is exactly `name`.
    pub fn from_canonical(name: &str) -> (r: Option<BlockedClaimType>)
        ensures
            forall|k: BlockedClaimType| r == Some(k) <==> name@ == kind_name(k),
    {
        proof {
            reveal_strlit("SUBJECT");
            reveal_strlit("COUNTRY");
            reveal_strlit("CIDR");
            reveal_strlit("USERAGENT");
        }
        if crate::text::compare_strings(name, "SUBJECT") == 0 {
            Some(BlockedClaimType::Subject)
        } else if crate::text::compare_strings(name, "COUNTRY") == 0 {
            Some(BlockedClaimType::Country)
        } else if crate::text::compare_strings(name, "CIDR") == 0 {
            Some(BlockedClaimType::Cidr)
        } else if crate::text::compare_strings(name, "USERAGENT") == 0 {
            Some(BlockedClaimType::UserAgent)
        } else {
            None
        }
    }

    /// Reads a category name, case-insensitively; an unknown name is a bad request.
    pub fn try_from(value: &str) -> (r: Result<BlockedClaimType, CatError>)
        ensures
            forall|k: BlockedClaimType| r == Ok::<BlockedClaimType, CatError>(k) <==> upper_of(value@) == kind_name(k),
            r is Err ==> r == Err::<BlockedClaimType, CatError>(CatError::BadRequest),
    {
        let upper = uppercase(value);
        match BlockedClaimType::from_canonical(upper.as_str()) {
            Some(k) => Ok(k),
            None => Err(CatError::BadRequest),
        }
    }
}

/// An AS number with the CIDR blocks announced for it.
pub struct Asn {
    pub asn: u32,
    pub cidrs: Vec<String>,
}

/// The AS numbers of a sequence of records.
pub open spec fn asn_keys(s: Seq<Asn>) -> Set<u32> {
    s.map_values(|a: Asn| a.asn).to_set()
}

/// Records strictly increasing by AS number: sorted, one record per number.
pub open spec fn key_sorted(s: Seq<Asn>) -> bool {
    forall|i: int, j: int| 0 <= i < j < s.len() ==> (#[trigger] s[i]).asn < (#[trigger] s[j]).asn
}

/// Every record of `r` is one of the records of `s`.
pub open spec fn records_from(r: Seq<Asn>, s: Seq<Asn>) -> bool {
    forall|i: int| 0 <= i < r.len() ==> s.contains(#[trigger] r[i])
}

/// `r` holds a record for exactly the AS numbers of `s`, each taken from `s`.
pub open spec fn asns_kept(r: Seq<Asn>, s: Seq<Asn>) -> bool {
    asn_keys(r) == asn_keys(s) && records_from(r, s)
}

pub struct BlockedData {
    pub any: bool,
    pub any_asns: bool,
    pub any_cidrs: bool,
    pub any_countries: bool,
    pub any_subjects: bool,
    pub any_user_agents: bool,
    pub asns: Vec<Asn>,
    pub countries: Vec<String>,
    pub cidrs: Vec<String>,
    pub subjects: Vec<String>,
    pub user_agents: Vec<String>,
}

impl BlockedData {
    /// The list that holds a category.
    pub open spec fn list(&self, kind: BlockedClaimType) -> Seq<String> {
        match kind {
            BlockedClaimType::Subject => self.subjects@,
            BlockedClaimType::Country => self.countries@,
            BlockedClaimType::Cidr => self.cidrs@,
            BlockedClaimType::UserAgent => self.user_agents@,
        }
    }

    /// The values blocked in a category.
    pub open spec fn text_set(&self, kind: BlockedClaimType) -> Set<Seq<char>> {
        set_of(self.list(kind))
    }

    /// The flags say which categories are non-empty, and `any` whether one is.
    pub open spec fn flags_ok(&self) -> bool {
        &&& self.any_subjects == (self.subjects@.len() > 0)
        &&& self.any_countries == (self.countries@.len() > 0)
        &&& self.any_cidrs == (self.cidrs@.len() > 0)
        &&& self.any_user_agents == (self.user_agents@.len() > 0)
        &&& self.any_asns == (self.asns@.len() > 0)
        &&& self.any == (self.any_asns || self.any_cidrs || self.any_countries
            || self.any_subjects || self.any_user_agents)
    }

    /// A normalised snapshot: every list strictly sorted, the flags accurate.
    pub open spec fn wf(&self) -> bool {
        &&& strictly_sorted(views(self.subjects@))
        &&& strictly_sorted(views(self.countries@))
        &&& strictly_sorted(views(self.cidrs@))
        &&& strictly_sorted(views(self.user_agents@))
        &&& key_sorted(self.asns@)
        &&& self.flags_ok()
    }

    /// Two snapshots that hold the same values in the same order, with the same flags.
    pub open spec fn same_content(&self, other: &BlockedData) -> bool {
        &&& views(self.subjects@) == views(other.subjects@)
        &&& views(self.countries@) == views(other.countries@)
        &&& views(self.cidrs@) == views(other.cidrs@)
        &&& views(self.user_agents@) == views(other.user_agents@)
        &&& self.asns@ == other.asns@
        &&& self.any == other.any
        &&& self.any_asns == other.any_asns
        &&& self.any_cidrs == other.any_cidrs
        &&& self.any_countries == other.any_countries
        &&& self.any_subjects == other.any_subjects
        &&& self.any_user_agents == other.any_user_agents
    }

    /// An empty snapshot.
    pub fn new() -> (r: BlockedData)
        ensures
            r.wf(),
            forall|k: BlockedClaimType| r.list(k).len() == 0,
            r.asns@.len() == 0,
    {
        let r = BlockedData {
            any: false,
            any_asns: false,
            any_cidrs: false,
            any_countries: false,
            any_subjects: false,
            any_user_agents: false,
            asns: Vec::new(),
            countries: Vec::new(),
            cidrs: Vec::new(),
            subjects: Vec::new(),
            user_agents: Vec::new(),
        };
        assert(views(r.subjects@) =~= Seq::<Seq<char>>::empty());
        assert(views(r.countries@) =~= Seq::<Seq<char>>::empty());
        assert(views(r.cidrs@) =~= Seq::<Seq<char>>::empty());
        assert(views(r.user_agents@) =~= Seq::<Seq<char>>::empty());
        r
    }

    /// Binary search for `value` in a category, which must be sorted.
    pub fn contains(&self, kind: &BlockedClaimType, value: &String) -> (r: Result<usize, usize>)
        requires
            strictly_sorted(views(self.list(*kind))),
        ensures
            match r {
                Ok(i) => i < self.list(*kind).len() && self.list(*kind)[i as int]@ == value@,
                Err(i) => {
                    &&& i <= self.list(*kind).len()
                    &&& forall|j: int| 0 <= j < i ==> lex_lt(#[trigger] self.list(*kind)[j]@, value@)
                    &&& forall|j: int| i <= j < self.list(*kind).len()
                        ==> lex_lt(value@, #[trigger] self.list(*kind)[j]@)
                },
            },
    {
        match kind {
            BlockedClaimType::Subject => search_sorted(&self.subjects, value.as_str()),
            BlockedClaimType::Country => search_sorted(&self.countries, value.as_str()),
            BlockedClaimType::Cidr => search_sorted(&self.cidrs, value.as_str()),
            BlockedClaimType::UserAgent => search_sorted(&self.user_agents, value.as_str()),
        }
    }

    /// Inserts `value` into a category at `at_index`.
    pub fn push(&mut self, kind: &BlockedClaimType, value: String, at_index: usize)
        requires
            at_index <= old(self).list(*kind).len(),
        ensures
            final(self).list(*kind) == old(self).list(*kind).insert(at_index as int, value),
            forall|k: BlockedClaimType| k != *kind ==> final(self).list(k) == old(self).list(k),
            final(self).asns@ == old(self).asns@,
    {
        match kind {
            BlockedClaimType::Subject => self.subjects.insert(at_index, value),
            BlockedClaimType::Country => self.countries.insert(at_index, value),
            BlockedClaimType::Cidr => self.cidrs.insert(at_index, value),
            BlockedClaimType::UserAgent => self.user_agents.insert(at_index, value),
        }
    }

    /// Removes the value at `idx` from a category.
    pub fn remove_at(&mut self, kind: &BlockedClaimType, idx: usize)
        requires
            idx < old(self).list(*kind).len(),
        ensures
            final(self).list(*kind) == old(self).list(*kind).remove(idx as int),
            forall|k: BlockedClaimType| k != *kind ==> final(self).list(k) == old(self).list(k),
            final(self).asns@ == old(self).asns@,
    {
        match kind {
            BlockedClaimType::Subject => { self.subjects.remove(idx); },
            BlockedClaimType::Country => { self.countries.remove(idx); },
            BlockedClaimType::Cidr => { self.cidrs.remove(idx); },
            BlockedClaimType::UserAgent => { self.user_agents.remove(idx); },
        }
    }

    /// Whether a record for `asn` is present.
    pub fn contains_asn(&self, asn: u32) -> (r: bool)
        ensures
            r == asn_keys(self.asns@).contains(asn),
    {
        let mut i: usize = 0;
        while i < self.asns.len()
            invariant
                i <= self.asns@.len(),
                forall|j: int| 0 <= j < i ==> (#[trigger] self.asns@[j]).asn != asn,
            decreases self.asns.len() - i,
        {
            if self.asns[i].asn == asn {
                proof {
                    assert(self.asns@.map_values(|a: Asn| a.asn)[i as int] == asn);
                }
                return true;
            }
            i = i + 1;
        }
        proof {
            let keys = self.asns@.map_values(|a: Asn| a.asn);
            assert(!keys.contains(asn)) by {
                if keys.contains(asn) {
                    let k = choose|k: int| 0 <= k < keys.len() && keys[k] == asn;
                    assert(self.asns@[k].asn == asn);
                }
            }
        }
        false
    }

    /// Appends records to the AS-number list.
    pub fn push_asns(&mut self, new_asns: Vec<Asn>)
        ensures
            final(self).asns@ == old(self).asns@ + new_asns@,
            forall|k: BlockedClaimType| final(self).list(k) == old(self).list(k),
    {
        let mut new_asns = new_asns;
        self.asns.append(&mut new_asns);
    }

    /// Drops every record for `asn`, keeping the others in order.
    pub fn retain_asn(&mut self, asn: u32)
        ensures
            asn_keys(final(self).asns@) == asn_keys(old(self).asns@).remove(asn),
            records_from(final(self).asns@, old(self).asns@),
            key_sorted(old(self).asns@) ==> key_sorted(final(self).asns@),
            forall|k: BlockedClaimType| final(self).list(k) == old(self).list(k),
    {
        let ghost orig = self.asns@;
        let mut out: Vec<Asn> = Vec::new();
        let ghost mut k: int = 0;
        while self.asns.len() > 0
            invariant
                0 <= k <= orig.len(),
                self.asns@ == orig.subrange(k, orig.len() as int),
                records_from(out@, orig),
                asn_keys(out@) == asn_keys(orig.subrange(0, k)).remove(asn),
                key_sorted(orig) ==> key_sorted(out@),
                key_sorted(orig) ==> forall|a: int, b: int|
                    0 <= a < out@.len() && k <= b < orig.len() ==> (#[trigger] out@[a]).asn
                        < (#[trigger] orig[b]).asn,
                forall|q: BlockedClaimType| self.list(q) == old(self).list(q),
            decreases self.asns.len(),
        {
            let r = self.asns.remove(0);
            proof {
                assert(r == orig[k]);
                lemma_asn_keys_push(orig.subrange(0, k), r);
                assert(orig.subrange(0, k + 1) =~= orig.subrange(0, k).push(r));
            }
            if r.asn != asn {
                let ghost before = out@;
                out.push(r);
                proof {
                    lemma_asn_keys_push(before, r);
                    assert(asn_keys(out@) =~= asn_keys(orig.subrange(0, k + 1)).remove(asn));
                    assert forall|i: int| 0 <= i < out@.len() implies orig.contains(#[trigger] out@[i]) by {
                        if i == before.len() {
                            assert(orig[k] == out@[i]);
                        } else {
                            assert(before[i] == out@[i]);
                        }
                    }
                }
            } else {
                proof {
                    assert(asn_keys(out@) =~= asn_keys(orig.subrange(0, k + 1)).remove(asn));
                }
            }
            proof {
                k = k + 1;
                assert(self.asns@ =~= orig.subrange(k, orig.len() as int));
            }
        }
        proof {
            assert(orig.subrange(0, k) =~= orig);
        }
        self.asns = out;
    }

    /// Sorts every list, drops duplicates (the first record of an AS number
    /// stays) and recomputes the flags.
    pub fn optimize(&mut self)
        ensures
            final(self).wf(),
            forall|k: BlockedClaimType| final(self).text_set(k) == old(self).text_set(k),
            asns_kept(final(self).asns@, old(self).asns@),
    {
        normalize_asns(&mut self.asns);
        self.any_asns = self.asns.len() > 0;
        normalize_list(&mut self.countries);
        self.any_countries = self.countries.len() > 0;
        normalize_list(&mut self.cidrs);
        self.any_cidrs = self.cidrs.len() > 0;
        normalize_list(&mut self.subjects);
        self.any_subjects = self.subjects.len() > 0;
        normalize_list(&mut self.user_agents);
        self.any_user_agents = self.user_agents.len() > 0;
        self.any = self.any_asns || self.any_cidrs || self.any_countries || self.any_subjects
            || self.any_user_agents;
    }
}

/// `after` is `before`, normalised, with `values` added to category `kind`.
pub open spec fn items_added(
    before: BlockedData,
    kind: BlockedClaimType,
    values: Set<Seq<char>>,
    after: BlockedData,
) -> bool {
    &&& after.wf()
    &&& after.text_set(kind) == before.text_set(kind).union(values)
    &&& forall|k: BlockedClaimType| k != kind ==> after.text_set(k) == before.text_set(k)
    &&& asns_kept(after.asns@, before.asns@)
}

/// `after` is `before`, normalised, with `values` taken out of category `kind`.
pub open spec fn items_removed(
    before: BlockedData,
    kind: BlockedClaimType,
    values: Set<Seq<char>>,
    after: BlockedData,
) -> bool {
    &&& after.wf()
    &&& after.text_set(kind) == before.text_set(kind).difference(values)
    &&& forall|k: BlockedClaimType| k != kind ==> after.text_set(k) == before.text_set(k)
    &&& asns_kept(after.asns@, before.asns@)
}

/// `after` is `before`, normalised, with the records of `resolved` for the AS
/// numbers it did not hold yet.
pub open spec fn asns_added(before: BlockedData, resolved: Seq<Asn>, after: BlockedData) -> bool {
    &&& after.wf()
    &&& forall|k: BlockedClaimType| after.text_set(k) == before.text_set(k)
    &&& asn_keys(after.asns@) == asn_keys(before.asns@).union(asn_keys(resolved))
    &&& records_from(after.asns@, before.asns@ + resolved)
}

/// `after` is `before`, normalised, without the records of the AS numbers `values`.
pub open spec fn asns_removed(before: BlockedData, values: Set<u32>, after: BlockedData) -> bool {
    &&& after.wf()
    &&& forall|k: BlockedClaimType| after.text_set(k) == before.text_set(k)
    &&& asn_keys(after.asns@) == asn_keys(before.asns@).difference(values)
    &&& records_from(after.asns@, before.asns@)
}

/// The read-modify-write operations on a denylist snapshot. The caller loads
/// the snapshot from the store, applies one of these and writes it back.
pub struct Persistence {}

impl Persistence {
    /// Adds `values` to category `kind`: union, duplicates ignored.
    pub fn add_items_to_blocklist(all: &mut BlockedData, kind: BlockedClaimType, values: Vec<String>)
        ensures
            items_added(*old(all), kind, set_of(values@), *final(all)),
    {
        let ghost start = *all;
        all.optimize();
        let mut i: usize = 0;
        while i < values.len()
            invariant
                i <= values@.len(),
                strictly_sorted(views(all.list(kind))),
                all.text_set(kind) == start.text_set(kind).union(views(values@).subrange(0, i as int).to_set()),
                forall|k: BlockedClaimType| k != kind ==> all.text_set(k) == start.text_set(k),
                asns_kept(all.asns@, start.asns@),
            decreases values.len() - i,
        {
            let value = values[i].clone();
            let ghost seen = views(values@).subrange(0, i as int);
            proof {
                assert(views(values@).subrange(0, i + 1) =~= seen.push(value@));
                seen.lemma_push_to_set_commute(value@);
            }
            match all.contains(&kind, &value) {
                Ok(idx) => {
                    proof {
                        assert(views(all.list(kind))[idx as int] == value@);
                        assert(all.text_set(kind).contains(value@));
                    }
                },
                Err(idx) => {
                    let ghost before = *all;
                    proof {
                        let s = views(all.list(kind));
                        assert forall|j: int| 0 <= j < idx implies lex_lt(#[trigger] s[j], value@) by {
                            assert(s[j] == all.list(kind)[j]@);
                        }
                        assert forall|j: int| idx <= j < s.len() implies lex_lt(value@, #[trigger] s[j]) by {
                            assert(s[j] == all.list(kind)[j]@);
                        }
                        lemma_insert_sorted(s, idx as int, value@);
                    }
                    all.push(&kind, value, idx);
                    proof {
                        assert(views(all.list(kind)) =~= views(before.list(kind)).insert(idx as int, value@));
                    }
                },
            }
            i = i + 1;
        }
        proof {
            assert(views(values@).subrange(0, i as int) =~= views(values@));
        }
        all.optimize();
        proof {
            assert(set_of(values@) == views(values@).to_set());
            assert(all.text_set(kind) =~= start.text_set(kind).union(set_of(values@)));
        }
    }

    /// Takes `values` out of category `kind`: difference, missing values ignored.
    pub fn remove_items_from_blocklist(all: &mut BlockedData, kind: BlockedClaimType, values: Vec<String>)
        ensures
            items_removed(*old(all), kind, set_of(values@), *final(all)),
    {
        let ghost start = *all;
        all.optimize();
        let mut i: usize = 0;
        while i < values.len()
            invariant
                i <= values@.len(),
                strictly_sorted(views(all.list(kind))),
                all.text_set(kind) == start.text_set(kind).difference(views(values@).subrange(0, i as int).to_set()),
                forall|k: BlockedClaimType| k != kind ==> all.text_set(k) == start.text_set(k),
                asns_kept(all.asns@, start.asns@),
            decreases values.len() - i,
        {
            let value = values[i].clone();
            let ghost seen = views(values@).subrange(0, i as int);
            proof {
                assert(views(values@).subrange(0, i + 1) =~= seen.push(value@));
                seen.lemma_push_to_set_commute(value@);
            }
            match all.contains(&kind, &value) {
                Ok(idx) => {
                    let ghost before = *all;
                    proof {
                        lemma_remove_sorted(views(all.list(kind)), idx as int);
                    }
                    all.remove_at(&kind, idx);
                    proof {
                        assert(views(all.list(kind)) =~= views(before.list(kind)).remove(idx as int));
                        assert(all.text_set(kind) =~= start.text_set(kind).difference(seen.push(value@).to_set()));
                    }
                },
                Err(idx) => {
                    proof {
                        let s = views(all.list(kind));
                        assert(!s.contains(value@)) by {
                            if s.contains(value@) {
                                let q = choose|q: int| 0 <= q < s.len() && s[q] == value@;
                                assert(s[q] == all.list(kind)[q]@);
                                crate::text::lemma_lex_order(value@, value@, value@);
                            }
                        }
                        assert(all.text_set(kind) =~= start.text_set(kind).difference(seen.push(value@).to_set()));
                    }
                },
            }
            i = i + 1;
        }
        proof {
            assert(views(values@).subrange(0, i as int) =~= views(values@));
        }
        all.optimize();
    }

    /// The AS numbers of `values` that have no record yet, each once, in the
    /// order of their first occurrence: these are the ones to resolve.
    pub fn asns_to_resolve(all: &BlockedData, values: &Vec<u32>) -> (r: Vec<u32>)
        ensures
            r@.to_set() == values@.to_set().difference(asn_keys(all.asns@)),
            r@.no_duplicates(),
    {
        let mut out: Vec<u32> = Vec::new();
        let mut i: usize = 0;
        while i < values.len()
            invariant
                i <= values@.len(),
                out@.to_set() == values@.subrange(0, i as int).to_set().difference(asn_keys(all.asns@)),
                out@.no_duplicates(),
            decreases values.len() - i,
        {
            let v = values[i];
            proof {
                assert(values@.subrange(0, i + 1) =~= values@.subrange(0, i as int).push(v));
                values@.subrange(0, i as int).lemma_push_to_set_commute(v);
            }
            let known = all.contains_asn(v);
            let mut seen = false;
            let mut j: usize = 0;
            while j < out.len()
                invariant
                    j <= out@.len(),
                    seen == out@.subrange(0, j as int).contains(v),
                decreases out.len() - j,
            {
                let ghost pre = out@.subrange(0, j as int);
                proof {
                    assert(out@.subrange(0, j + 1) =~= pre.push(out@[j as int]));
                }
                if out[j] == v {
                    seen = true;
                    proof {
                        assert(out@.subrange(0, j + 1)[j as int] == v);
                    }
                } else {
                    proof {
                        let ext = out@.subrange(0, j + 1);
                        if ext.contains(v) {
                            let q = choose|q: int| 0 <= q < ext.len() && ext[q] == v;
                            assert(pre[q] == v);
                        }
                    }
                }
                j = j + 1;
            }
            proof {
                assert(out@.subrange(0, j as int) =~= out@);
            }
            if !known && !seen {
                let ghost before = out@;
                out.push(v);
                proof {
                    before.lemma_push_to_set_commute(v);
                    assert(out@.to_set() =~= values@.subrange(0, i + 1).to_set().difference(asn_keys(all.asns@)));
                }
            } else {
                proof {
                    if seen {
                        assert(out@.to_set().contains(v));
                    }
                    assert(out@.to_set() =~= values@.subrange(0, i + 1).to_set().difference(asn_keys(all.asns@)));
                }
            }
            i = i + 1;
        }
        proof {
            assert(values@.subrange(0, i as int) =~= values@);
        }
        out
    }

    /// Adds the records that the resolver returned; a record whose AS number is
    /// already present is dropped.
    pub fn add_asns_to_blocklist(all: &mut BlockedData, resolved: Vec<Asn>)
        ensures
            asns_added(*old(all), resolved@, *final(all)),
    {
        let ghost start = *all;
        all.optimize();
        let ghost mid = all.asns@;
        all.push_asns(resolved);
        all.optimize();
        proof {
            let total = mid + resolved@;
            let f = |a: Asn| a.asn;
            assert(total.map_values(f) =~= mid.map_values(f) + resolved@.map_values(f));
            assert forall|x: u32| asn_keys(total).contains(x) <==> asn_keys(mid).union(asn_keys(resolved@)).contains(x) by {
                let tk = total.map_values(f);
                if asn_keys(total).contains(x) {
                    let q = choose|q: int| 0 <= q < tk.len() && tk[q] == x;
                    if q < mid.len() {
                        assert(mid.map_values(f)[q] == x);
                    } else {
                        assert(resolved@.map_values(f)[q - mid.len()] == x);
                    }
                }
                if asn_keys(mid).contains(x) {
                    let q = choose|q: int| 0 <= q < mid.len() && mid.map_values(f)[q] == x;
                    assert(tk[q] == x);
                }
                if asn_keys(resolved@).contains(x) {
                    let q = choose|q: int| 0 <= q < resolved@.len() && resolved@.map_values(f)[q] == x;
                    assert(tk[q + mid.len()] == x);
                }
            }
            assert(asn_keys(total) =~= asn_keys(mid).union(asn_keys(resolved@)));
            assert forall|i: int| 0 <= i < all.asns@.len() implies (start.asns@ + resolved@).contains(#[trigger] all.asns@[i]) by {
                let q = choose|q: int| 0 <= q < total.len() && total[q] == all.asns@[i];
                if q < mid.len() {
                    assert(start.asns@.contains(mid[q]));
                    let p = choose|p: int| 0 <= p < start.asns@.len() && start.asns@[p] == mid[q];
                    assert((start.asns@ + resolved@)[p] == all.asns@[i]);
                } else {
                    assert((start.asns@ + resolved@)[q - mid.len() + start.asns@.len()] == all.asns@[i]);
                }
            }
        }
    }

    /// Drops the records of the AS numbers `values`; missing numbers are ignored.
    pub fn remove_asns_from_blocklist(all: &mut BlockedData, values: Vec<u32>)
        ensures
            asns_removed(*old(all), values@.to_set(), *final(all)),
    {
        let ghost start = *all;
        all.optimize();
        let mut i: usize = 0;
        while i < values.len()
            invariant
                i <= values@.len(),
                key_sorted(all.asns@),
                forall|k: BlockedClaimType| all.text_set(k) == start.text_set(k),
                asn_keys(all.asns@) == asn_keys(start.asns@).difference(values@.subrange(0, i as int).to_set()),
                records_from(all.asns@, start.asns@),
            decreases values.len() - i,
        {
            let v = values[i];
            proof {
                assert(values@.subrange(0, i + 1) =~= values@.subrange(0, i as int).push(v));
                values@.subrange(0, i as int).lemma_push_to_set_commute(v);
            }
            if all.contains_asn(v) {
                let ghost before = all.asns@;
                all.retain_asn(v);
                proof {
                    assert forall|q: int| 0 <= q < all.asns@.len() implies start.asns@.contains(#[trigger] all.asns@[q]) by {
                        let p = choose|p: int| 0 <= p < before.len() && before[p] == all.asns@[q];
                        assert(start.asns@.contains(before[p]));
                    }
                }
            }
            proof {
                assert(asn_keys(all.asns@) =~= asn_keys(start.asns@).difference(values@.subrange(0, i + 1).to_set()));
            }
            i = i + 1;
        }
        proof {
            assert(values@.subrange(0, i as int) =~= values@);
        }
        let ghost before = all.asns@;
        all.optimize();
        proof {
            assert forall|q: int| 0 <= q < all.asns@.len() implies start.asns@.contains(#[trigger] all.asns@[q]) by {
                let p = choose|p: int| 0 <= p < before.len() && before[p] == all.asns@[q];
                assert(start.asns@.contains(before[p]));
            }
        }
    }
}

/// Binary search for the record of `asn` in a list sorted by AS number.
fn search_asn(list: &Vec<Asn>, asn: u32) -> (r: Result<usize, usize>)
    requires
        key_sorted(list@),
    ensures
        match r {
            Ok(i) => i < list@.len() && list@[i as int].asn == asn,
            Err(i) => {
                &&& i <= list@.len()
                &&& forall|j: int| 0 <= j < i ==> (#[trigger] list@[j]).asn < asn
                &&& forall|j: int| i <= j < list@.len() ==> asn < (#[trigger] list@[j]).asn
            },
        },
{
    let mut lo: usize = 0;
    let mut hi: usize = list.len();
    while lo < hi
        invariant
            lo <= hi <= list@.len(),
            key_sorted(list@),
            forall|j: int| 0 <= j < lo ==> (#[trigger] list@[j]).asn < asn,
            forall|j: int| hi <= j < list@.len() ==> asn < (#[trigger] list@[j]).asn,
        decreases hi - lo,
    {
        let mid = lo + (hi - lo) / 2;
        let found = list[mid].asn;
        if found == asn {
            return Ok(mid);
        } else if found < asn {
            lo = mid + 1;
        } else {
            hi = mid;
        }
    }
    Err(lo)
}

/// Sorts records by AS number and keeps the first record of each number.
fn normalize_asns(list: &mut Vec<Asn>)
    ensures
        key_sorted(final(list)@),
        asns_kept(final(list)@, old(list)@),
{
    let ghost orig = list@;
    let mut out: Vec<Asn> = Vec::new();
    let ghost mut k: int = 0;
    while list.len() > 0
        invariant
            0 <= k <= orig.len(),
            list@ == orig.subrange(k, orig.len() as int),
            key_sorted(out@),
            records_from(out@, orig),
            asn_keys(out@) == asn_keys(orig.subrange(0, k)),
        decreases list.len(),
    {
        let r = list.remove(0);
        proof {
            assert(r == orig[k]);
            lemma_asn_keys_push(orig.subrange(0, k), r);
            assert(orig.subrange(0, k + 1) =~= orig.subrange(0, k).push(r));
        }
        match search_asn(&out, r.asn) {
            Ok(i) => {
                proof {
                    assert(out@.map_values(|a: Asn| a.asn)[i as int] == r.asn);
                    assert(asn_keys(out@).insert(r.asn) =~= asn_keys(out@));
                }
            },
            Err(i) => {
                let ghost before = out@;
                out.insert(i, r);
                proof {
                    assert(out@ =~= before.insert(i as int, r));
                    assert forall|a: int, b: int| 0 <= a < b < out@.len() implies
                        (#[trigger] out@[a]).asn < (#[trigger] out@[b]).asn by {
                        if b < i {
                        } else if a < i && b == i {
                        } else if a < i {
                            assert(out@[b] == before[b - 1]);
                        } else if a == i {
                            assert(out@[b] == before[b - 1]);
                        } else {
                            assert(out@[a] == before[a - 1] && out@[b] == before[b - 1]);
                        }
                    }
                    assert forall|j: int| 0 <= j < out@.len() implies orig.contains(#[trigger] out@[j]) by {
                        if j < i {
                            assert(out@[j] == before[j]);
                        } else if j == i {
                            assert(orig[k] == out@[j]);
                        } else {
                            assert(out@[j] == before[j - 1]);
                        }
                    }
                    let f = |a: Asn| a.asn;
                    assert forall|x: u32| asn_keys(out@).contains(x) <==> asn_keys(before).insert(r.asn).contains(x) by {
                        assert(out@.map_values(f)[i as int] == r.asn);
                        if asn_keys(out@).contains(x) {
                            let q = choose|q: int| 0 <= q < out@.len() && out@.map_values(f)[q] == x;
                            if q < i {
                                assert(before.map_values(f)[q] == x);
                            } else if q > i {
                                assert(before.map_values(f)[q - 1] == x);
                            }
                        }
                        if asn_keys(before).contains(x) {
                            let q = choose|q: int| 0 <= q < before.len() && before.map_values(f)[q] == x;
                            if q < i {
                                assert(out@.map_values(f)[q] == x);
                            } else {
                                assert(out@.map_values(f)[q + 1] == x);
                            }
                        }
                    }
                    assert(asn_keys(out@) =~= asn_keys(before).insert(r.asn));
                }
            },
        }
        proof {
            k = k + 1;
            assert(list@ =~= orig.subrange(k, orig.len() as int));
        }
    }
    proof {
        assert(orig.subrange(0, k) =~= orig);
    }
    *list = out;
}

/// The AS numbers of a sequence grow by the number of each record pushed.
pub proof fn lemma_asn_keys_push(s: Seq<Asn>, r: Asn)
    ensures
        asn_keys(s.push(r)) == asn_keys(s).insert(r.asn),
{
    let f = |a: Asn| a.asn;
    assert(s.push(r).map_values(f) =~= s.map_values(f).push(r.asn));
    s.map_values(f).lemma_push_to_set_commute(r.asn);
}

} // verus!
