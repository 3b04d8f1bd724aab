//! Laws of the denylist operations, stated over their contracts.
use vstd::prelude::*;

use crate::persistence::{
    asn_keys, asns_added, asns_removed, items_added, items_removed, key_sorted, records_from,
    Asn, BlockedClaimType, BlockedData,
};
use std::collections::BTreeMap;

use common_access_token::CborValue;

use crate::cat::{pipeline_verdict, CatValidationOptions};
use crate::cbor::{address_admits, decoded_addresses};
use crate::claims::{
    header_pair_ok, normalized, normalized_texts, CatCountryValidator, CatHeaderValidator,
    CatNipValidator, CatVersionValidator, SyncValidator, Validate,
};
use crate::error::{BlockReason, CatError, RejectedClaim};
use crate::text::{lemma_lex_order, strictly_sorted, views};

verus! {

/// A strictly sorted sequence is determined by its set of elements.
pub proof fn lemma_sorted_unique(a: Seq<Seq<char>>, b: Seq<Seq<char>>)
    requires
        strictly_sorted(a),
        strictly_sorted(b),
        a.to_set() == b.to_set(),
    ensures
        a == b,
    decreases a.len(),
{
    if a.len() == 0 {
        if b.len() > 0 {
            assert(b.to_set().contains(b[0]));
        }
        assert(a =~= b);
    } else if b.len() == 0 {
        assert(a.to_set().contains(a[0]));
    } else {
        assert(a.to_set().contains(a[0]));
        assert(b.to_set().contains(b[0]));
        let i = choose|i: int| 0 <= i < a.len() && a[i] == b[0];
        let j = choose|j: int| 0 <= j < b.len() && b[j] == a[0];
        if a[0] != b[0] {
            assert(i > 0 && j > 0);
            lemma_lex_order(a[0], b[0], a[0]);
        }
        let a1 = a.drop_first();
        let b1 = b.drop_first();
        assert forall|x: Seq<char>| a1.contains(x) <==> b1.contains(x) by {
            if a1.contains(x) {
                let p = choose|p: int| 0 <= p < a1.len() && a1[p] == x;
                assert(a[p + 1] == x);
                assert(a.to_set().contains(x));
                let q = choose|q: int| 0 <= q < b.len() && b[q] == x;
                if q == 0 {
                    lemma_lex_order(a[0], x, a[0]);
                }
                assert(b1[q - 1] == x);
            }
            if b1.contains(x) {
                let p = choose|p: int| 0 <= p < b1.len() && b1[p] == x;
                assert(b[p + 1] == x);
                assert(b.to_set().contains(x));
                let q = choose|q: int| 0 <= q < a.len() && a[q] == x;
                if q == 0 {
                    lemma_lex_order(b[0], x, b[0]);
                }
                assert(a1[q - 1] == x);
            }
        }
        assert(a1.to_set() =~= b1.to_set());
        lemma_sorted_unique(a1, b1);
        assert(a.len() == b.len());
        assert forall|q: int| 0 <= q < a.len() implies a[q] == b[q] by {
            if q > 0 {
                assert(a[q] == a1[q - 1] && b[q] == b1[q - 1]);
            }
        }
        assert(a =~= b);
    }
}

/// Records sorted by AS number are determined by their numbers, once each is
/// known to come from the other sequence.
pub proof fn lemma_asns_unique(a: Seq<Asn>, b: Seq<Asn>)
    requires
        key_sorted(a),
        key_sorted(b),
        asn_keys(a) == asn_keys(b),
        records_from(a, b),
    ensures
        a == b,
    decreases a.len(),
{
    let f = |r: Asn| r.asn;
    if a.len() == 0 {
        if b.len() > 0 {
            assert(b.map_values(f)[0] == b[0].asn);
            assert(asn_keys(b).contains(b[0].asn));
        }
        assert(a =~= b);
    } else if b.len() == 0 {
        assert(a.map_values(f)[0] == a[0].asn);
        assert(asn_keys(a).contains(a[0].asn));
    } else {
        assert(a.map_values(f)[0] == a[0].asn);
        assert(b.map_values(f)[0] == b[0].asn);
        assert(asn_keys(b).contains(a[0].asn));
        assert(asn_keys(a).contains(b[0].asn));
        let i = choose|i: int| 0 <= i < a.len() && a.map_values(f)[i] == b[0].asn;
        let j = choose|j: int| 0 <= j < b.len() && b.map_values(f)[j] == a[0].asn;
        assert(a[0].asn == b[0].asn);
        assert(b.contains(a[0]));
        let p = choose|p: int| 0 <= p < b.len() && b[p] == a[0];
        assert(p == 0);
        let a1 = a.drop_first();
        let b1 = b.drop_first();
        assert forall|x: u32| asn_keys(a1).contains(x) <==> asn_keys(b1).contains(x) by {
            if asn_keys(a1).contains(x) {
                let q = choose|q: int| 0 <= q < a1.len() && a1.map_values(f)[q] == x;
                assert(a.map_values(f)[q + 1] == x);
                assert(asn_keys(b).contains(x));
                let r = choose|r: int| 0 <= r < b.len() && b.map_values(f)[r] == x;
                assert(r != 0);
                assert(b1.map_values(f)[r - 1] == x);
            }
            if asn_keys(b1).contains(x) {
                let q = choose|q: int| 0 <= q < b1.len() && b1.map_values(f)[q] == x;
                assert(b.map_values(f)[q + 1] == x);
                assert(asn_keys(a).contains(x));
                let r = choose|r: int| 0 <= r < a.len() && a.map_values(f)[r] == x;
                assert(r != 0);
                assert(a1.map_values(f)[r - 1] == x);
            }
        }
        assert(asn_keys(a1) =~= asn_keys(b1));
        assert forall|q: int| 0 <= q < a1.len() implies b1.contains(#[trigger] a1[q]) by {
            assert(a[q + 1] == a1[q]);
            assert(b.contains(a[q + 1]));
            let r = choose|r: int| 0 <= r < b.len() && b[r] == a[q + 1];
            assert(r != 0);
            assert(b1[r - 1] == a1[q]);
        }
        lemma_asns_unique(a1, b1);
        assert(a.len() == b.len());
        assert forall|q: int| 0 <= q < a.len() implies a[q] == b[q] by {
            if q > 0 {
                assert(a[q] == a1[q - 1] && b[q] == b1[q - 1]);
            }
        }
        assert(a =~= b);
    }
}

/// Two normalised snapshots with the same values in every category and the
/// same records hold the same content.
pub proof fn lemma_same_content(a: BlockedData, b: BlockedData)
    requires
        a.wf(),
        b.wf(),
        forall|k: BlockedClaimType| a.text_set(k) == b.text_set(k),
        a.asns@ == b.asns@,
    ensures
        a.same_content(&b),
{
    assert(a.text_set(BlockedClaimType::Subject) == b.text_set(BlockedClaimType::Subject));
    assert(a.text_set(BlockedClaimType::Country) == b.text_set(BlockedClaimType::Country));
    assert(a.text_set(BlockedClaimType::Cidr) == b.text_set(BlockedClaimType::Cidr));
    assert(a.text_set(BlockedClaimType::UserAgent) == b.text_set(BlockedClaimType::UserAgent));
    lemma_sorted_unique(views(a.subjects@), views(b.subjects@));
    lemma_sorted_unique(views(a.countries@), views(b.countries@));
    lemma_sorted_unique(views(a.cidrs@), views(b.cidrs@));
    lemma_sorted_unique(views(a.user_agents@), views(b.user_agents@));
    assert(a.subjects@.len() == views(a.subjects@).len());
    assert(b.subjects@.len() == views(b.subjects@).len());
    assert(a.countries@.len() == views(a.countries@).len());
    assert(b.countries@.len() == views(b.countries@).len());
    assert(a.cidrs@.len() == views(a.cidrs@).len());
    assert(b.cidrs@.len() == views(b.cidrs@).len());
    assert(a.user_agents@.len() == views(a.user_agents@).len());
    assert(b.user_agents@.len() == views(b.user_agents@).len());
}

/// Adding values that a normalised snapshot already blocks changes nothing.
pub proof fn lemma_add_present_is_noop(
    before: BlockedData,
    kind: BlockedClaimType,
    values: Set<Seq<char>>,
    after: BlockedData,
)
    requires
        before.wf(),
        values.subset_of(before.text_set(kind)),
        items_added(before, kind, values, after),
    ensures
        after.same_content(&before),
{
    assert(after.text_set(kind) =~= before.text_set(kind));
    lemma_asns_unique(after.asns@, before.asns@);
    lemma_same_content(after, before);
}

/// Removing values that a normalised snapshot does not block changes nothing.
pub proof fn lemma_remove_absent_is_noop(
    before: BlockedData,
    kind: BlockedClaimType,
    values: Set<Seq<char>>,
    after: BlockedData,
)
    requires
        before.wf(),
        values.disjoint(before.text_set(kind)),
        items_removed(before, kind, values, after),
    ensures
        after.same_content(&before),
{
    assert(after.text_set(kind) =~= before.text_set(kind));
    lemma_asns_unique(after.asns@, before.asns@);
    lemma_same_content(after, before);
}

/// Adding the same values twice does what adding them once does.
pub proof fn lemma_add_idempotent(
    start: BlockedData,
    kind: BlockedClaimType,
    values: Set<Seq<char>>,
    once: BlockedData,
    twice: BlockedData,
)
    requires
        items_added(start, kind, values, once),
        items_added(once, kind, values, twice),
    ensures
        twice.same_content(&once),
{
    lemma_add_present_is_noop(once, kind, values, twice);
}

/// Removing the same values twice does what removing them once does.
pub proof fn lemma_remove_idempotent(
    start: BlockedData,
    kind: BlockedClaimType,
    values: Set<Seq<char>>,
    once: BlockedData,
    twice: BlockedData,
)
    requires
        items_removed(start, kind, values, once),
        items_removed(once, kind, values, twice),
    ensures
        twice.same_content(&once),
{
    assert(values.disjoint(once.text_set(kind)));
    lemma_remove_absent_is_noop(once, kind, values, twice);
}

/// Removing AS numbers that a normalised snapshot has no record for changes
/// nothing.
pub proof fn lemma_remove_absent_asns_is_noop(before: BlockedData, values: Set<u32>, after: BlockedData)
    requires
        before.wf(),
        values.disjoint(asn_keys(before.asns@)),
        asns_removed(before, values, after),
    ensures
        after.same_content(&before),
{
    assert(asn_keys(after.asns@) =~= asn_keys(before.asns@));
    lemma_asns_unique(after.asns@, before.asns@);
    lemma_same_content(after, before);
}

/// Removing the same AS numbers twice does what removing them once does.
pub proof fn lemma_remove_asns_idempotent(
    start: BlockedData,
    values: Set<u32>,
    once: BlockedData,
    twice: BlockedData,
)
    requires
        asns_removed(start, values, once),
        asns_removed(once, values, twice),
    ensures
        twice.same_content(&once),
{
    lemma_remove_absent_asns_is_noop(once, values, twice);
}

/// Adding the record of an AS number that a normalised snapshot lacks, then
/// removing that number, gives the snapshot back.
pub proof fn lemma_add_then_remove_asn(
    before: BlockedData,
    record: Asn,
    added: BlockedData,
    after: BlockedData,
)
    requires
        before.wf(),
        !asn_keys(before.asns@).contains(record.asn),
        asns_added(before, seq![record], added),
        asns_removed(added, set![record.asn], after),
    ensures
        after.same_content(&before),
{
    let f = |r: Asn| r.asn;
    assert(seq![record].map_values(f) =~= seq![record.asn]);
    assert(seq![record.asn].to_set() =~= set![record.asn]) by {
        assert(seq![record.asn][0] == record.asn);
    }
    assert(asn_keys(after.asns@) =~= asn_keys(before.asns@));
    assert forall|q: int| 0 <= q < after.asns@.len() implies before.asns@.contains(#[trigger] after.asns@[q]) by {
        let r = after.asns@[q];
        assert(added.asns@.contains(r));
        let p = choose|p: int| 0 <= p < added.asns@.len() && added.asns@[p] == r;
        assert((before.asns@ + seq![record]).contains(r));
        let s = choose|s: int| 0 <= s < before.asns@.len() + 1 && (before.asns@ + seq![record])[s] == r;
        assert(after.asns@.map_values(f)[q] == r.asn);
        assert(asn_keys(after.asns@).contains(r.asn));
        if s == before.asns@.len() {
            assert(r == record);
        } else {
            assert(before.asns@[s] == r);
        }
    }
    lemma_asns_unique(after.asns@, before.asns@);
    lemma_same_content(after, before);
}


/// Every validator accepts an absent claim.
pub proof fn lemma_absent_claim_accepted(v: SyncValidator)
    ensures
        v.accepts(None),
{
}

/// The version validator accepts a present claim exactly when it is the integer 1.
pub proof fn lemma_version_accepts_one(v: CatVersionValidator, claim: CborValue)
    ensures
        v.accepts(Some(claim)) <==> claim == CborValue::Integer(1),
{
}

/// The header validator refuses a map with an odd number of entries, and
/// accepts an even one exactly when every (name, match kind) pair is met.
pub proof fn lemma_header_pairs(v: CatHeaderValidator, m: BTreeMap<i32, CborValue>)
    ensures
        m@.len() % 2 == 1 ==> !v.accepts(Some(CborValue::Map(m))),
        m@.len() % 2 == 0 ==> (v.accepts(Some(CborValue::Map(m))) <==> forall|p: int|
            0 <= p < m@.len() / 2 ==> header_pair_ok(v.headers@, m@, p)),
{
}

/// The normalised text entries are those of the text values.
pub proof fn lemma_normalized_texts(s: Seq<CborValue>, x: Seq<char>)
    ensures
        normalized_texts(s).contains(x) <==> exists|i: int|
            0 <= i < s.len() && (#[trigger] s[i] matches CborValue::Text(t) && normalized(t@) == x),
    decreases s.len(),
{
    if s.len() > 0 {
        let init = s.drop_last();
        lemma_normalized_texts(init, x);
        let rest = normalized_texts(init);
        if normalized_texts(s).contains(x) {
            let q = choose|q: int| 0 <= q < normalized_texts(s).len() && normalized_texts(s)[q] == x;
            if q < rest.len() {
                assert(rest[q] == x);
                let i = choose|i: int| 0 <= i < init.len() && (#[trigger] init[i] matches CborValue::Text(t) && normalized(t@) == x);
                assert(s[i] == init[i]);
            } else {
                assert(s[s.len() - 1] matches CborValue::Text(t) && normalized(t@) == x);
            }
        }
        if exists|i: int| 0 <= i < s.len() && (#[trigger] s[i] matches CborValue::Text(t) && normalized(t@) == x) {
            let i = choose|i: int| 0 <= i < s.len() && (#[trigger] s[i] matches CborValue::Text(t) && normalized(t@) == x);
            if i < s.len() - 1 {
                assert(init[i] == s[i]);
                assert(rest.contains(x));
                let q = choose|q: int| 0 <= q < rest.len() && rest[q] == x;
                assert(normalized_texts(s)[q] == x);
            } else {
                assert(normalized_texts(s).last() == x);
                assert(normalized_texts(s)[normalized_texts(s).len() - 1] == x);
            }
        }
    }
}

/// The geography validator accepts an array claim exactly when it is empty or
/// one of its text entries equals the request's country once both are
/// upper-cased and trimmed.
pub proof fn lemma_geo_membership(v: CatCountryValidator, a: Vec<CborValue>)
    ensures
        v.accepts(Some(CborValue::Array(a))) <==> (a@.len() == 0 || exists|i: int|
            0 <= i < a@.len() && (#[trigger] a@[i] matches CborValue::Text(t) && normalized(t@)
                == normalized(v.country@))),
{
    lemma_normalized_texts(a@, normalized(v.country@));
}

/// Countries that agree once upper-cased and trimmed are treated alike.
pub proof fn lemma_geo_insensitive(v: CatCountryValidator, w: CatCountryValidator, claim: Option<CborValue>)
    requires
        normalized(v.country@) == normalized(w.country@),
    ensures
        v.accepts(claim) == w.accepts(claim),
{
}

/// The client-network validator accepts a present claim exactly when the
/// client address parsed, the claim is an array, and the array is empty or
/// some entry of it admits the address.
pub proof fn lemma_nip_contains(v: CatNipValidator, claim: CborValue)
    ensures
        v.accepts(Some(claim)) <==> (v.client_ip matches Some(ip) && claim matches CborValue::Array(
            a,
        ) && (a@.len() == 0 || exists|i: int|
            0 <= i < decoded_addresses(a@).len() && address_admits(
                #[trigger] decoded_addresses(a@)[i],
                ip,
            ))),
{
}

/// A denylisted subject is refused as such, whatever else holds of the token,
/// when the denylist is consulted.
pub proof fn lemma_blocked_subject_refused(
    d: BlockedData,
    subject: String,
    opts: CatValidationOptions,
    rejected: Option<RejectedClaim>,
    custom: Map<i32, CborValue>,
    r: Result<(), CatError>,
)
    requires
        d.flags_ok(),
        !opts.skip_kv_validations,
        d.text_set(BlockedClaimType::Subject).contains(subject@),
        pipeline_verdict(Some(d), Some(subject), opts, rejected, custom, r),
    ensures
        r == Err::<(), CatError>(CatError::Blocked(BlockReason::Subject)),
{
    assert(d.subjects@.len() > 0);
}

/// When the denylist is skipped, nothing is refused by it.
pub proof fn lemma_skip_passes_denylist(
    snapshot: Option<BlockedData>,
    subject: Option<String>,
    opts: CatValidationOptions,
    rejected: Option<RejectedClaim>,
    custom: Map<i32, CborValue>,
    r: Result<(), CatError>,
)
    requires
        opts.skip_kv_validations,
        pipeline_verdict(snapshot, subject, opts, rejected, custom, r),
    ensures
        !(r matches Err(CatError::Blocked(_))),
{
}

} // verus!
