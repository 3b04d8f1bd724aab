//! Sorted, duplicate-free lists of strings: binary search, insertion at the
//! found position and its lemmas, and normalisation of an arbitrary list.
use vstd::prelude::*;

use crate::text::{compare_strings, lemma_lex_order, lex_lt, strictly_sorted, views};

verus! {

/// The set of character sequences held by a list of strings.
pub open spec fn set_of(v: Seq<String>) -> Set<Seq<char>> {
    views(v).to_set()
}

/// Binary search for `value` in a strictly sorted list: `Ok(i)` where it stands,
/// or `Err(i)`, the position at which inserting it keeps the list sorted.
pub fn search_sorted(list: &Vec<String>, value: &str) -> (r: Result<usize, usize>)
    requires
        strictly_sorted(views(list@)),
    ensures
        match r {
            Ok(i) => i < list@.len() && list@[i as int]@ == value@,
            Err(i) => {
                &&& i <= list@.len()
                &&& forall|j: int| 0 <= j < i ==> lex_lt(#[trigger] list@[j]@, value@)
                &&& forall|j: int| i <= j < list@.len() ==> lex_lt(value@, #[trigger] list@[j]@)
            },
        },
{
    let mut lo: usize = 0;
    let mut hi: usize = list.len();
    while lo < hi
        invariant
            lo <= hi <= list@.len(),
            strictly_sorted(views(list@)),
            forall|j: int| 0 <= j < lo ==> lex_lt(#[trigger] list@[j]@, value@),
            forall|j: int| hi <= j < list@.len() ==> lex_lt(value@, #[trigger] list@[j]@),
        decreases hi - lo,
    {
        let mid = lo + (hi - lo) / 2;
        let c = compare_strings(list[mid].as_str(), value);
        if c == 0 {
            return Ok(mid);
        } else if c == -1 {
            assert forall|j: int| 0 <= j < mid + 1 implies lex_lt(#[trigger] list@[j]@, value@) by {
                if j < mid {
                    assert(lex_lt(views(list@)[j], views(list@)[mid as int]));
                    lemma_lex_order(list@[j]@, list@[mid as int]@, value@);
                }
            }
            lo = mid + 1;
        } else {
            assert forall|j: int| mid <= j < list@.len() implies lex_lt(value@, #[trigger] list@[j]@) by {
                if j > mid {
                    assert(lex_lt(views(list@)[mid as int], views(list@)[j]));
                    lemma_lex_order(value@, list@[mid as int]@, list@[j]@);
                }
            }
            hi = mid;
        }
    }
    Err(lo)
}

/// Inserting `value` at a position where everything before is smaller and
/// everything after is larger keeps a list strictly sorted.
pub proof fn lemma_insert_sorted(s: Seq<Seq<char>>, i: int, x: Seq<char>)
    requires
        strictly_sorted(s),
        0 <= i <= s.len(),
        forall|j: int| 0 <= j < i ==> lex_lt(#[trigger] s[j], x),
        forall|j: int| i <= j < s.len() ==> lex_lt(x, #[trigger] s[j]),
    ensures
        strictly_sorted(s.insert(i, x)),
        s.insert(i, x).to_set() == s.to_set().insert(x),
{
    let t = s.insert(i, x);
    assert forall|a: int, b: int| 0 <= a < b < t.len() implies lex_lt(#[trigger] t[a], #[trigger] t[b]) by {
        if a < i && b > i {
            lemma_lex_order(t[a], x, t[b]);
        }
    }
    assert forall|y: Seq<char>| t.contains(y) <==> s.to_set().insert(x).contains(y) by {
        assert(t[i] == x);
        if s.contains(y) {
            let k = choose|k: int| 0 <= k < s.len() && s[k] == y;
            if k < i {
                assert(t[k] == y);
            } else {
                assert(t[k + 1] == y);
            }
        }
        if t.contains(y) {
            let k = choose|k: int| 0 <= k < t.len() && t[k] == y;
            if k < i {
                assert(s[k] == y);
            } else if k > i {
                assert(s[k - 1] == y);
            }
        }
    }
    assert(t.to_set() =~= s.to_set().insert(x));
}

/// Removing one element keeps a list strictly sorted and removes exactly that
/// value from its set.
pub proof fn lemma_remove_sorted(s: Seq<Seq<char>>, i: int)
    requires
        strictly_sorted(s),
        0 <= i < s.len(),
    ensures
        strictly_sorted(s.remove(i)),
        s.remove(i).to_set() == s.to_set().remove(s[i]),
{
    let t = s.remove(i);
    assert forall|a: int, b: int| 0 <= a < b < t.len() implies lex_lt(#[trigger] t[a], #[trigger] t[b]) by {
        if a < i && b >= i {
            assert(t[b] == s[b + 1]);
        } else if a >= i {
            assert(t[a] == s[a + 1] && t[b] == s[b + 1]);
        }
    }
    assert forall|y: Seq<char>| t.contains(y) <==> s.to_set().remove(s[i]).contains(y) by {
        if t.contains(y) {
            let k = choose|k: int| 0 <= k < t.len() && t[k] == y;
            if k < i {
                assert(s[k] == y);
                lemma_lex_order(s[k], s[i], s[i]);
            } else {
                assert(s[k + 1] == y);
                lemma_lex_order(s[i], s[k + 1], s[i]);
            }
        }
        if s.contains(y) && y != s[i] {
            let k = choose|k: int| 0 <= k < s.len() && s[k] == y;
            if k < i {
                assert(t[k] == y);
            } else {
                assert(t[k - 1] == y);
            }
        }
    }
    assert(t.to_set() =~= s.to_set().remove(s[i]));
}

/// Adds `value` to a strictly sorted list unless it is already there.
pub fn insert_sorted(list: &mut Vec<String>, value: String)
    requires
        strictly_sorted(views(old(list)@)),
    ensures
        strictly_sorted(views(final(list)@)),
        set_of(final(list)@) == set_of(old(list)@).insert(value@),
{
    match search_sorted(list, value.as_str()) {
        Ok(i) => {
            proof {
                assert(views(list@)[i as int] == value@);
                assert(set_of(list@).insert(value@) =~= set_of(list@));
            }
        },
        Err(i) => {
            proof {
                let s = views(list@);
                assert forall|j: int| 0 <= j < i implies lex_lt(#[trigger] s[j], value@) by {
                    assert(s[j] == list@[j]@);
                }
                assert forall|j: int| i <= j < s.len() implies lex_lt(value@, #[trigger] s[j]) by {
                    assert(s[j] == list@[j]@);
                }
                lemma_insert_sorted(s, i as int, value@);
            }
            let ghost before = list@;
            list.insert(i, value);
            proof {
                assert(views(list@) =~= views(before).insert(i as int, value@));
            }
        },
    }
}

/// Sorts a list and drops its duplicates, keeping its set of values.
pub fn normalize_list(list: &mut Vec<String>)
    ensures
        strictly_sorted(views(final(list)@)),
        set_of(final(list)@) == set_of(old(list)@),
{
    let ghost orig = list@;
    let mut out: Vec<String> = Vec::new();
    let ghost mut k: int = 0;
    assert(views(out@) =~= Seq::<Seq<char>>::empty());
    while list.len() > 0
        invariant
            0 <= k <= orig.len(),
            list@ == orig.subrange(k, orig.len() as int),
            strictly_sorted(views(out@)),
            set_of(out@) == views(orig).subrange(0, k).to_set(),
        decreases list.len(),
    {
        let s = list.remove(0);
        proof {
            assert(s == orig[k]);
            assert(views(orig).subrange(0, k + 1) =~= views(orig).subrange(0, k).push(s@));
            views(orig).subrange(0, k).lemma_push_to_set_commute(s@);
        }
        insert_sorted(&mut out, s);
        proof {
            k = k + 1;
            assert(list@ =~= orig.subrange(k, orig.len() as int));
        }
    }
    proof {
        assert(views(orig).subrange(0, k) =~= views(orig));
    }
    *list = out;
}

} // verus!
