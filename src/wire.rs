//! A bounded scan of CBOR data items, and the shape of an encoded token that
//! the token library can decode within bounded memory and stack: every
//! declared length fits in the bytes that remain, nesting is bounded, and no
//! indefinite length is used.
use vstd::prelude::*;

use crate::cbor::{be_value, lemma_pow256_mono, pow256};

verus! {

/// How deeply arrays, maps and tags may nest.
pub const MAX_DEPTH: u32 = 16;

/// The head of the data item at `pos`: major type, argument, and where the
/// head ends. `None` when the head is cut short or uses a reserved or
/// indefinite length.
pub open spec fn head(b: Seq<u8>, pos: int) -> Option<(u8, nat, int)> {
    if pos < 0 || pos >= b.len() {
        None
    } else {
        let ib = b[pos];
        let major = ib / 32;
        let info = ib % 32;
        if info < 24 {
            Some((major, info as nat, pos + 1))
        } else if info <= 27 {
            let k: int = if info == 24 {
                1
            } else if info == 25 {
                2
            } else if info == 26 {
                4
            } else {
                8
            };
            if pos + 1 + k <= b.len() {
                Some((major, be_value(b.subrange(pos + 1, pos + 1 + k)), pos + 1 + k))
            } else {
                None
            }
        } else {
            None
        }
    }
}

/// Where the data item at `pos` ends, when it is well formed with containers
/// nested at most `depth` deep.
pub open spec fn item_end(b: Seq<u8>, pos: int, depth: nat) -> Option<int>
    decreases depth, 0nat, 0nat,
{
    match head(b, pos) {
        None => None,
        Some((major, v, h)) => {
            if major == 0 || major == 1 || major == 7 {
                Some(h)
            } else if major == 2 || major == 3 {
                if h + v <= b.len() {
                    Some(h + v)
                } else {
                    None
                }
            } else if depth == 0 {
                None
            } else if major == 4 {
                if v <= b.len() - h {
                    items_end(b, h, v, (depth - 1) as nat)
                } else {
                    None
                }
            } else if major == 5 {
                if 2 * v <= b.len() - h {
                    items_end(b, h, 2 * v, (depth - 1) as nat)
                } else {
                    None
                }
            } else {
                item_end(b, h, (depth - 1) as nat)
            }
        },
    }
}

/// Where `n` consecutive data items starting at `pos` end.
pub open spec fn items_end(b: Seq<u8>, pos: int, n: nat, depth: nat) -> Option<int>
    decreases depth, 1nat, n,
{
    if n == 0 {
        Some(pos)
    } else {
        match item_end(b, pos, depth) {
            Some(p) => items_end(b, p, (n - 1) as nat, depth),
            None => None,
        }
    }
}

/// The data item at the start of `b` is well formed.
pub open spec fn item_ok(b: Seq<u8>) -> bool {
    item_end(b, 0, MAX_DEPTH as nat) is Some
}

/// The position after at most `n` tag heads from `pos`.
pub open spec fn skip_tags(b: Seq<u8>, pos: int, n: nat) -> int
    decreases n,
{
    if n == 0 {
        pos
    } else {
        match head(b, pos) {
            Some((major, _, h)) => if major == 6 {
                skip_tags(b, h, (n - 1) as nat)
            } else {
                pos
            },
            None => pos,
        }
    }
}

/// The content range of the byte string at `pos`.
pub open spec fn bstr_at(b: Seq<u8>, pos: int) -> Option<(int, int)> {
    match head(b, pos) {
        Some((major, v, h)) => if major == 2 && h + v <= b.len() {
            Some((h, h + v))
        } else {
            None
        },
        None => None,
    }
}

/// An encoded token of the expected shape, within bounds: up to two tags, an
/// array of four items whose first and third are byte strings holding a well
/// formed data item (the protected header and the claims), all well formed.
pub open spec fn token_shape_ok(b: Seq<u8>) -> bool {
    let p0 = skip_tags(b, 0, 2);
    match head(b, p0) {
        Some((major, v, p1)) => major == 4 && v == 4 && match bstr_at(b, p1) {
            Some((s0, e0)) => item_ok(b.subrange(s0, e0)) && match item_end(b, e0, MAX_DEPTH as nat) {
                Some(p3) => match bstr_at(b, p3) {
                    Some((s2, e2)) => item_ok(b.subrange(s2, e2)) && item_end(
                        b,
                        e2,
                        MAX_DEPTH as nat,
                    ) is Some,
                    None => false,
                },
                None => false,
            },
            None => false,
        },
        None => false,
    }
}

fn read_head(b: &[u8], pos: usize) -> (r: Option<(u8, u64, usize)>)
    ensures
        match r {
            Some((m, v, h)) => head(b@, pos as int) == Some((m, v as nat, h as int)),
            None => head(b@, pos as int) is None,
        },
{
    if pos >= b.len() {
        return None;
    }
    let ib = b[pos];
    let major = ib / 32;
    let info = ib % 32;
    if info < 24 {
        return Some((major, info as u64, pos + 1));
    }
    if info > 27 {
        return None;
    }
    let k: usize = if info == 24 {
        1
    } else if info == 25 {
        2
    } else if info == 26 {
        4
    } else {
        8
    };
    if k > b.len() - pos - 1 {
        return None;
    }
    let ghost bytes = b@.subrange(pos + 1, pos + 1 + k);
    proof {
        reveal_with_fuel(pow256, 9);
        lemma_pow256_mono(k as nat, 8);
        assert(pow256(8) == 0x1_0000_0000_0000_0000nat);
        assert(bytes.take(0) =~= Seq::<u8>::empty());
    }
    let mut acc: u64 = 0;
    let mut i: usize = 0;
    while i < k
        invariant
            i <= k <= 8,
            pos + 1 + k <= b.len(),
            bytes == b@.subrange(pos + 1, pos + 1 + k),
            acc == be_value(bytes.take(i as int)),
            acc < pow256(i as nat),
            pow256(k as nat) <= 0x1_0000_0000_0000_0000nat,
        decreases k - i,
    {
        let byte = b[pos + 1 + i];
        proof {
            assert(bytes.take(i + 1).drop_last() =~= bytes.take(i as int));
            assert(bytes[i as int] == byte);
            lemma_pow256_mono((i + 1) as nat, k as nat);
            let p = pow256(i as nat);
            assert(acc * 256 + byte < p * 256) by (nonlinear_arith)
                requires
                    acc < p,
                    byte < 256,
            ;
        }
        acc = acc * 256 + byte as u64;
        i = i + 1;
    }
    assert(bytes.take(i as int) =~= bytes);
    Some((major, acc, pos + 1 + k))
}

/// Where the data item at `pos` ends, if it is well formed within `depth`.
pub fn scan_item(b: &[u8], pos: usize, depth: u32) -> (r: Option<usize>)
    ensures
        match r {
            Some(e) => item_end(b@, pos as int, depth as nat) == Some(e as int),
            None => item_end(b@, pos as int, depth as nat) is None,
        },
    decreases depth, 0nat, 0nat,
{
    let (major, v, h) = match read_head(b, pos) {
        Some(x) => x,
        None => return None,
    };
    if major == 0 || major == 1 || major == 7 {
        Some(h)
    } else if major == 2 || major == 3 {
        if v <= (b.len() - h) as u64 {
            Some(h + v as usize)
        } else {
            None
        }
    } else if depth == 0 {
        None
    } else if major == 4 {
        if v <= (b.len() - h) as u64 {
            scan_items(b, h, v, depth - 1)
        } else {
            None
        }
    } else if major == 5 {
        if v <= ((b.len() - h) / 2) as u64 {
            scan_items(b, h, 2 * v, depth - 1)
        } else {
            None
        }
    } else {
        scan_item(b, h, depth - 1)
    }
}

/// Where `n` consecutive data items from `pos` end.
pub fn scan_items(b: &[u8], pos: usize, n: u64, depth: u32) -> (r: Option<usize>)
    ensures
        match r {
            Some(e) => items_end(b@, pos as int, n as nat, depth as nat) == Some(e as int),
            None => items_end(b@, pos as int, n as nat, depth as nat) is None,
        },
    decreases depth, 1nat, n,
{
    if n == 0 {
        return Some(pos);
    }
    match scan_item(b, pos, depth) {
        Some(p) => scan_items(b, p, n - 1, depth),
        None => None,
    }
}

fn scan_tags(b: &[u8], pos: usize, n: u32) -> (r: usize)
    ensures
        r as int == skip_tags(b@, pos as int, n as nat),
    decreases n,
{
    if n == 0 {
        return pos;
    }
    match read_head(b, pos) {
        Some((major, _, h)) => if major == 6 {
            scan_tags(b, h, n - 1)
        } else {
            pos
        },
        None => pos,
    }
}

fn bstr_range(b: &[u8], pos: usize) -> (r: Option<(usize, usize)>)
    ensures
        match r {
            Some((s, e)) => bstr_at(b@, pos as int) == Some((s as int, e as int)),
            None => bstr_at(b@, pos as int) is None,
        },
{
    match read_head(b, pos) {
        Some((major, v, h)) => if major == 2 && v <= (b.len() - h) as u64 {
            Some((h, h + v as usize))
        } else {
            None
        },
        None => None,
    }
}

fn sub_item_ok(b: &[u8], s: usize, e: usize) -> (r: bool)
    requires
        s <= e <= b@.len(),
    ensures
        r == item_ok(b@.subrange(s as int, e as int)),
{
    let part = vstd::slice::slice_subrange(b, s, e);
    assert(part@ =~= b@.subrange(s as int, e as int));
    scan_item(part, 0, MAX_DEPTH).is_some()
}

/// Whether an encoded token has the expected shape within bounds.
pub fn token_shape(b: &[u8]) -> (r: bool)
    ensures
        r == token_shape_ok(b@),
{
    let p0 = scan_tags(b, 0, 2);
    let (major, v, p1) = match read_head(b, p0) {
        Some(x) => x,
        None => return false,
    };
    if !(major == 4 && v == 4) {
        return false;
    }
    let (s0, e0) = match bstr_range(b, p1) {
        Some(x) => x,
        None => return false,
    };
    if !sub_item_ok(b, s0, e0) {
        return false;
    }
    let p3 = match scan_item(b, e0, MAX_DEPTH) {
        Some(p) => p,
        None => return false,
    };
    let (s2, e2) = match bstr_range(b, p3) {
        Some(x) => x,
        None => return false,
    };
    if !sub_item_ok(b, s2, e2) {
        return false;
    }
    scan_item(b, e2, MAX_DEPTH).is_some()
}

} // verus!
