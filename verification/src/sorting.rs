//! Stable sorting by composite keys.
//!
//! A key is a sequence of parts compared lexicographically; a part is either
//! missing (sorting first, as `None` does), an integer, or a text compared in
//! `String` order. Sorting returns the arrangement of positions that a stable
//! sort produces, so that callers can move their own items into place.

use crate::exact_clone::ExactClone;
use crate::text::{compare_str, lemma_lex_asymmetric, lemma_lex_irreflexive, lemma_lex_total, lemma_lex_transitive, lex_lt, Precedence};
use vstd::prelude::*;

verus! {

/// One part of a sort key.
pub enum SortPart {
    Missing,
    Int(i64),
    Text(String),
}

/// The value of a sort key part.
pub enum SortPartV {
    Missing,
    Int(i64),
    Text(Seq<char>),
}

impl DeepView for SortPart {
    type V = SortPartV;

    open spec fn deep_view(&self) -> SortPartV {
        match self {
            SortPart::Missing => SortPartV::Missing,
            SortPart::Int(n) => SortPartV::Int(*n),
            SortPart::Text(t) => SortPartV::Text(t@),
        }
    }
}

/// Strict order of key parts: missing first, then integers, then texts.
pub open spec fn part_lt(a: SortPartV, b: SortPartV) -> bool {
    match (a, b) {
        (SortPartV::Missing, SortPartV::Missing) => false,
        (SortPartV::Missing, _) => true,
        (_, SortPartV::Missing) => false,
        (SortPartV::Int(x), SortPartV::Int(y)) => x < y,
        (SortPartV::Int(_), SortPartV::Text(_)) => true,
        (SortPartV::Text(_), SortPartV::Int(_)) => false,
        (SortPartV::Text(x), SortPartV::Text(y)) => lex_lt(x, y),
    }
}

/// Lexicographic strict order of keys.
pub open spec fn key_lt(a: Seq<SortPartV>, b: Seq<SortPartV>) -> bool
    decreases a.len(),
{
    if a.len() == 0 {
        b.len() > 0
    } else if b.len() == 0 {
        false
    } else if a[0] != b[0] {
        part_lt(a[0], b[0])
    } else {
        key_lt(a.drop_first(), b.drop_first())
    }
}

/// Whether key `a` must come before key `b` in the given direction.
pub open spec fn before(a: Seq<SortPartV>, b: Seq<SortPartV>, descending: bool) -> bool {
    if descending {
        key_lt(b, a)
    } else {
        key_lt(a, b)
    }
}

proof fn lemma_part_order(a: SortPartV, b: SortPartV, c: SortPartV)
    ensures
        !part_lt(a, a),
        a == b || part_lt(a, b) || part_lt(b, a),
        !(part_lt(a, b) && part_lt(b, a)),
        part_lt(a, b) && part_lt(b, c) ==> part_lt(a, c),
{
    match (a, b, c) {
        (SortPartV::Text(x), SortPartV::Text(y), SortPartV::Text(z)) => {
            lemma_lex_irreflexive(x);
            lemma_lex_total(x, y);
            lemma_lex_asymmetric(x, y);
            if lex_lt(x, y) && lex_lt(y, z) {
                lemma_lex_transitive(x, y, z);
            }
        },
        (SortPartV::Text(x), SortPartV::Text(y), _) => {
            lemma_lex_irreflexive(x);
            lemma_lex_total(x, y);
            lemma_lex_asymmetric(x, y);
        },
        (SortPartV::Text(x), _, _) => {
            lemma_lex_irreflexive(x);
        },
        _ => {},
    }
}

proof fn lemma_key_order(a: Seq<SortPartV>, b: Seq<SortPartV>, c: Seq<SortPartV>)
    ensures
        !key_lt(a, a),
        a == b || key_lt(a, b) || key_lt(b, a),
        !(key_lt(a, b) && key_lt(b, a)),
        key_lt(a, b) && key_lt(b, c) ==> key_lt(a, c),
    decreases a.len(),
{
    if a.len() > 0 {
        lemma_key_order(a.drop_first(), a.drop_first(), a.drop_first());
    }
    if a.len() > 0 && b.len() > 0 {
        lemma_part_order(a[0], b[0], b[0]);
        if c.len() > 0 {
            lemma_part_order(a[0], b[0], c[0]);
            lemma_part_order(b[0], c[0], a[0]);
            lemma_part_order(c[0], a[0], b[0]);
            lemma_key_order(a.drop_first(), b.drop_first(), c.drop_first());
        } else {
            lemma_key_order(a.drop_first(), b.drop_first(), b.drop_first());
        }
        if a.drop_first() == b.drop_first() && a[0] == b[0] {
            assert(a =~= seq![a[0]] + a.drop_first());
            assert(b =~= seq![b[0]] + b.drop_first());
        }
    } else if a.len() == 0 && b.len() == 0 {
        assert(a =~= b);
    }
}

/// The order facts that sorting relies on.
pub proof fn lemma_before_order(a: Seq<SortPartV>, b: Seq<SortPartV>, c: Seq<SortPartV>, d: bool)
    ensures
        !before(a, a, d),
        a == b || before(a, b, d) || before(b, a, d),
        !(before(a, b, d) && before(b, a, d)),
        before(a, b, d) && before(b, c, d) ==> before(a, c, d),
        !before(b, a, d) && !before(c, b, d) ==> !before(c, a, d),
{
    lemma_key_order(a, b, c);
    lemma_key_order(b, a, c);
    lemma_key_order(c, b, a);
    lemma_key_order(a, c, b);
    lemma_key_order(b, c, a);
    lemma_key_order(c, a, b);
}

/// Whether `p` arranges the positions `0..n`: each once.
pub open spec fn arrangement(p: Seq<int>, n: nat) -> bool {
    &&& p.len() == n
    &&& forall|k: int| 0 <= k < p.len() ==> 0 <= #[trigger] p[k] < n
    &&& forall|a: int, b: int| 0 <= a < b < p.len() ==> #[trigger] p[a] != #[trigger] p[b]
}

/// Whether the arrangement `p` orders `keys` as a stable sort does: no key
/// comes before an earlier one, and keys that tie keep their relative order.
pub open spec fn stable_order(p: Seq<int>, keys: Seq<Seq<SortPartV>>, d: bool) -> bool {
    &&& forall|a: int, b: int|
        0 <= a < b < p.len() ==> !before(keys[#[trigger] p[b]], keys[#[trigger] p[a]], d)
    &&& forall|a: int, b: int|
        0 <= a < b < p.len() && !before(keys[#[trigger] p[a]], keys[#[trigger] p[b]], d) ==> p[a]
            < p[b]
}

/// Whether `r` is `s` sorted stably by `keys` (the keys of `s`, position by
/// position) in the given direction.
pub open spec fn stably_sorted<A>(r: Seq<A>, s: Seq<A>, keys: Seq<Seq<SortPartV>>, d: bool) -> bool {
    exists|p: Seq<int>|
        #![trigger arrangement(p, s.len())]
        arrangement(p, s.len()) && stable_order(p, keys, d) && r.len() == s.len() && forall|k: int|
            0 <= k < r.len() ==> #[trigger] r[k] == s[p[k]]
}

fn parts_equal(a: &SortPart, b: &SortPart) -> (r: bool)
    ensures
        r == (a.deep_view() == b.deep_view()),
{
    match (a, b) {
        (SortPart::Missing, SortPart::Missing) => true,
        (SortPart::Int(x), SortPart::Int(y)) => *x == *y,
        (SortPart::Text(x), SortPart::Text(y)) => compare_str(x.as_str(), y.as_str())
            == Precedence::Same,
        _ => false,
    }
}

fn part_precedes(a: &SortPart, b: &SortPart) -> (r: bool)
    ensures
        r == part_lt(a.deep_view(), b.deep_view()),
{
    match (a, b) {
        (SortPart::Missing, SortPart::Missing) => false,
        (SortPart::Missing, _) => true,
        (_, SortPart::Missing) => false,
        (SortPart::Int(x), SortPart::Int(y)) => *x < *y,
        (SortPart::Int(_), SortPart::Text(_)) => true,
        (SortPart::Text(_), SortPart::Int(_)) => false,
        (SortPart::Text(x), SortPart::Text(y)) => {
            proof {
                lemma_lex_irreflexive(x@);
            }
            compare_str(x.as_str(), y.as_str()) == Precedence::Before
        },
    }
}

/// Whether key `a` is strictly less than key `b`.
pub fn key_precedes(a: &Vec<SortPart>, b: &Vec<SortPart>) -> (r: bool)
    ensures
        r == key_lt(a.deep_view(), b.deep_view()),
{
    let ghost av = a.deep_view();
    let ghost bv = b.deep_view();
    let mut i: usize = 0;
    assert(av.skip(0) =~= av);
    assert(bv.skip(0) =~= bv);
    while i < a.len() && i < b.len()
        invariant
            av == a.deep_view(),
            bv == b.deep_view(),
            i <= av.len(),
            i <= bv.len(),
            key_lt(av, bv) == key_lt(av.skip(i as int), bv.skip(i as int)),
        decreases av.len() - i,
    {
        assert(av.skip(i as int).drop_first() =~= av.skip(i + 1));
        assert(bv.skip(i as int).drop_first() =~= bv.skip(i + 1));
        assert(av[i as int] == a@[i as int].deep_view());
        assert(bv[i as int] == b@[i as int].deep_view());
        assert(av.skip(i as int)[0] == av[i as int]);
        assert(bv.skip(i as int)[0] == bv[i as int]);
        if !parts_equal(&a[i], &b[i]) {
            return part_precedes(&a[i], &b[i]);
        }
        i = i + 1;
    }
    assert(av.skip(i as int).len() == av.len() - i);
    assert(bv.skip(i as int).len() == bv.len() - i);
    i < b.len()
}

/// Whether key `a` must come before key `b` in the given direction.
pub fn comes_before(a: &Vec<SortPart>, b: &Vec<SortPart>, descending: bool) -> (r: bool)
    ensures
        r == before(a.deep_view(), b.deep_view(), descending),
{
    if descending {
        key_precedes(b, a)
    } else {
        key_precedes(a, b)
    }
}

/// The arrangement of positions that sorts `keys` stably in the given
/// direction: ascending, or descending where `descending` holds.
pub fn sort_positions(keys: &Vec<Vec<SortPart>>, descending: bool) -> (r: Vec<usize>)
    ensures
        arrangement(r@.map_values(|x: usize| x as int), keys@.len()),
        stable_order(r@.map_values(|x: usize| x as int), keys.deep_view(), descending),
{
    let ghost kv = keys.deep_view();
    let mut r: Vec<usize> = Vec::new();
    let mut i: usize = 0;
    while i < keys.len()
        invariant
            kv == keys.deep_view(),
            i <= kv.len(),
            r@.len() == i,
            forall|k: int| 0 <= k < r@.len() ==> #[trigger] r@[k] < i,
            forall|a: int, b: int| 0 <= a < b < r@.len() ==> #[trigger] r@[a] != #[trigger] r@[b],
            forall|a: int, b: int|
                0 <= a < b < r@.len() ==> !before(
                    kv[#[trigger] r@[b] as int],
                    kv[#[trigger] r@[a] as int],
                    descending,
                ),
            forall|a: int, b: int|
                0 <= a < b < r@.len() && !before(
                    kv[#[trigger] r@[a] as int],
                    kv[#[trigger] r@[b] as int],
                    descending,
                ) ==> r@[a] < r@[b],
        decreases kv.len() - i,
    {
        let mut pos: usize = r.len();
        while pos > 0 && comes_before(&keys[i], &keys[r[pos - 1]], descending)
            invariant
                kv == keys.deep_view(),
                i < kv.len(),
                pos <= r@.len(),
                forall|k: int| 0 <= k < r@.len() ==> #[trigger] r@[k] < i,
                forall|b: int| pos <= b < r@.len() ==> before(kv[i as int], kv[#[trigger] r@[b] as int], descending),
            decreases pos,
        {
            pos = pos - 1;
        }
        let ghost old_r = r@;
        r.insert(pos, i);
        proof {
            assert(r@ == old_r.insert(pos as int, i));
            assert forall|a: int, b: int| 0 <= a < b < r@.len() implies !before(
                kv[#[trigger] r@[b] as int],
                kv[#[trigger] r@[a] as int],
                descending,
            ) by {
                if b < pos {
                    assert(r@[a] == old_r[a] && r@[b] == old_r[b]);
                } else if b == pos {
                    let last = old_r[pos - 1] as int;
                    lemma_before_order(kv[r@[a] as int], kv[last], kv[i as int], descending);
                    if a < pos - 1 {
                        assert(r@[a] == old_r[a]);
                        assert(!before(kv[old_r[pos - 1] as int], kv[old_r[a] as int], descending));
                    }
                } else if a == pos {
                    assert(r@[b] == old_r[b - 1]);
                    assert(before(kv[i as int], kv[old_r[b - 1] as int], descending));
                    lemma_before_order(kv[i as int], kv[old_r[b - 1] as int], kv[i as int], descending);
                } else if a < pos {
                    assert(r@[a] == old_r[a] && r@[b] == old_r[b - 1]);
                } else {
                    assert(r@[a] == old_r[a - 1] && r@[b] == old_r[b - 1]);
                }
            }
            assert forall|a: int, b: int|
                0 <= a < b < r@.len() && !before(
                    kv[#[trigger] r@[a] as int],
                    kv[#[trigger] r@[b] as int],
                    descending,
                ) implies r@[a] < r@[b] by {
                if b < pos {
                    assert(r@[a] == old_r[a] && r@[b] == old_r[b]);
                } else if b == pos {
                    assert(r@[a] == old_r[a]);
                } else if a == pos {
                    assert(r@[b] == old_r[b - 1]);
                    assert(before(kv[i as int], kv[old_r[b - 1] as int], descending));
                } else if a < pos {
                    assert(r@[a] == old_r[a] && r@[b] == old_r[b - 1]);
                } else {
                    assert(r@[a] == old_r[a - 1] && r@[b] == old_r[b - 1]);
                }
            }
            assert forall|a: int, b: int| 0 <= a < b < r@.len() implies #[trigger] r@[a]
                != #[trigger] r@[b] by {
                if b < pos {
                    assert(r@[a] == old_r[a] && r@[b] == old_r[b]);
                } else if b == pos {
                    assert(r@[a] == old_r[a]);
                } else if a == pos {
                    assert(r@[b] == old_r[b - 1]);
                } else if a < pos {
                    assert(r@[a] == old_r[a] && r@[b] == old_r[b - 1]);
                } else {
                    assert(r@[a] == old_r[a - 1] && r@[b] == old_r[b - 1]);
                }
            }
            assert forall|k: int| 0 <= k < r@.len() implies #[trigger] r@[k] < i + 1 by {
                if k < pos {
                    assert(r@[k] == old_r[k]);
                } else if k > pos {
                    assert(r@[k] == old_r[k - 1]);
                }
            }
        }
        i = i + 1;
    }
    let ghost p = r@.map_values(|x: usize| x as int);
    proof {
        assert forall|a: int, b: int| 0 <= a < b < p.len() implies #[trigger] p[a] != #[trigger] p[b] by {
            assert(r@[a] != r@[b]);
        }
        assert forall|a: int, b: int| 0 <= a < b < p.len() implies !before(
            kv[#[trigger] p[b]],
            kv[#[trigger] p[a]],
            descending,
        ) by {
            assert(!before(kv[r@[b] as int], kv[r@[a] as int], descending));
        }
        assert forall|a: int, b: int|
            0 <= a < b < p.len() && !before(kv[#[trigger] p[a]], kv[#[trigger] p[b]], descending) implies p[a]
            < p[b] by {
            assert(!before(kv[r@[a] as int], kv[r@[b] as int], descending));
        }
    }
    r
}

/// The items of `items` in the order that `positions` gives.
pub fn arrange<T: ExactClone>(items: &Vec<T>, positions: &Vec<usize>) -> (r: Vec<T>)
    requires
        forall|k: int| 0 <= k < positions@.len() ==> #[trigger] positions@[k] < items@.len(),
    ensures
        r@.len() == positions@.len(),
        forall|k: int|
            0 <= k < r@.len() ==> #[trigger] r.deep_view()[k] == items.deep_view()[positions@[k] as int],
{
    let mut r: Vec<T> = Vec::new();
    let mut k: usize = 0;
    while k < positions.len()
        invariant
            k <= positions@.len(),
            r@.len() == k,
            forall|j: int| 0 <= j < positions@.len() ==> #[trigger] positions@[j] < items@.len(),
            forall|j: int|
                0 <= j < k ==> #[trigger] r.deep_view()[j] == items.deep_view()[positions@[j] as int],
        decreases positions@.len() - k,
    {
        let item = items[positions[k]].exact_clone();
        let ghost prev = r@;
        let ghost prev_deep = r.deep_view();
        r.push(item);
        proof {
            assert forall|j: int| 0 <= j < k + 1 implies #[trigger] r.deep_view()[j]
                == items.deep_view()[positions@[j] as int] by {
                if j < k {
                    assert(r@[j] == prev[j]);
                    assert(prev_deep[j] == prev[j].deep_view());
                    assert(r.deep_view()[j] == r@[j].deep_view());
                } else {
                    assert(r.deep_view()[j] == r@[j].deep_view());
                    assert(items.deep_view()[positions@[j] as int] == items@[positions@[j] as int].deep_view());
                }
            }
        }
        k = k + 1;
    }
    r
}

/// `items` sorted stably by `keys` (one key per item) in the given direction.
pub fn sort_by_keys<T: ExactClone>(items: &Vec<T>, keys: &Vec<Vec<SortPart>>, descending: bool) -> (r: Vec<T>)
    requires
        keys@.len() == items@.len(),
    ensures
        stably_sorted(r.deep_view(), items.deep_view(), keys.deep_view(), descending),
{
    let positions = sort_positions(keys, descending);
    let ghost p = positions@.map_values(|x: usize| x as int);
    proof {
        assert forall|k: int| 0 <= k < positions@.len() implies #[trigger] positions@[k] < items@.len() by {
            assert(p[k] == positions@[k] as int);
        }
    }
    let r = arrange(items, &positions);
    proof {
        assert(items.deep_view().len() == items@.len());
        assert(arrangement(p, items.deep_view().len()));
        assert forall|k: int| 0 <= k < r.deep_view().len() implies #[trigger] r.deep_view()[k]
            == items.deep_view()[p[k]] by {
            assert(p[k] == positions@[k] as int);
        }
    }
    r
}

/// An arrangement of `0..n` takes every position.
pub proof fn lemma_arrangement_onto(p: Seq<int>, n: nat, j: int)
    requires
        arrangement(p, n),
        0 <= j < n,
    ensures
        exists|k: int| 0 <= k < p.len() && p[k] == j,
{
    assert(p.no_duplicates()) by {
        assert forall|a: int, b: int| 0 <= a < p.len() && 0 <= b < p.len() && a != b implies p[a] != p[b] by {
            if a < b {
                assert(p[a] != p[b]);
            } else {
                assert(p[b] != p[a]);
            }
        }
    }
    p.unique_seq_to_set();
    vstd::set_lib::lemma_int_range(0, n as int);
    let range = vstd::set_lib::set_int_range(0, n as int);
    assert(p.to_set().subset_of(range)) by {
        assert forall|x: int| p.to_set().contains(x) implies range.contains(x) by {
            let k = choose|k: int| 0 <= k < p.len() && p[k] == x;
            assert(0 <= p[k] < n);
        }
    }
    vstd::seq_lib::seq_to_set_is_finite(p);
    vstd::set_lib::lemma_subset_equality(p.to_set(), range);
    assert(range.contains(j));
    assert(p.to_set().contains(j));
}

} // verus!
