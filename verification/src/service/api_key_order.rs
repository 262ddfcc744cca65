//! Listing order of API keys and the canonical form of permission sets.

use crate::exact_clone::ExactClone;
use crate::scim::memory::opt_text_part;
use crate::service::api_key::{ApiKey, ApiKeyPermission, ApiKeySortDirection, ApiKeyView};
use crate::sorting::{arrangement, before, key_lt, part_lt, lemma_arrangement_onto, sort_by_keys, stable_order, stably_sorted, SortPart, SortPartV};
use crate::text::{lemma_lex_irreflexive, lemma_lex_total, lemma_lex_transitive, lex_lt, str_eq};
use vstd::prelude::*;

verus! {

/// An optional time as a sort key part: absent sorts first.
pub open spec fn opt_int_part(t: Option<i64>) -> SortPartV {
    match t {
        Some(x) => SortPartV::Int(x),
        None => SortPartV::Missing,
    }
}

/// The key that API keys are listed by for a sort field; an unknown field
/// leaves every key equal.
pub open spec fn api_key_sort_key(k: ApiKeyView, field: Seq<char>) -> Seq<SortPartV> {
    if field == "createdAt"@ {
        seq![SortPartV::Int(k.created_at)]
    } else if field == "updatedAt"@ {
        seq![SortPartV::Int(k.updated_at)]
    } else if field == "name"@ {
        seq![opt_text_part(k.name)]
    } else if field == "expiresAt"@ {
        seq![opt_int_part(k.expires_at)]
    } else if field == "start"@ {
        seq![opt_text_part(k.start)]
    } else {
        Seq::empty()
    }
}

fn api_key_key(k: &ApiKey, field: &str) -> (r: Vec<SortPart>)
    ensures
        r.deep_view() == api_key_sort_key(k.deep_view(), field@),
{
    let mut r: Vec<SortPart> = Vec::new();
    if str_eq(field, "createdAt") {
        r.push(SortPart::Int(k.created_at));
    } else if str_eq(field, "updatedAt") {
        r.push(SortPart::Int(k.updated_at));
    } else if str_eq(field, "name") {
        r.push(crate::scim::memory::opt_text_key(&k.name));
    } else if str_eq(field, "expiresAt") {
        r.push(
            match k.expires_at {
                Some(t) => SortPart::Int(t),
                None => SortPart::Missing,
            },
        );
    } else if str_eq(field, "start") {
        r.push(crate::scim::memory::opt_text_key(&k.start));
    }
    assert(r.deep_view() =~= api_key_sort_key(k.deep_view(), field@));
    r
}

/// Sorts API keys stably by a field (`createdAt`, `updatedAt`, `name`,
/// `expiresAt` or `start`, absent values first) in the given direction;
/// any other field keeps the order.
pub fn sort_api_keys(keys: &mut Vec<ApiKey>, field: &str, direction: ApiKeySortDirection)
    ensures
        stably_sorted(
            final(keys).deep_view(),
            old(keys).deep_view(),
            old(keys).deep_view().map_values(|k: ApiKeyView| api_key_sort_key(k, field@)),
            direction == ApiKeySortDirection::Descending,
        ),
{
    let ghost s = keys.deep_view();
    let mut sort_keys: Vec<Vec<SortPart>> = Vec::new();
    let mut i: usize = 0;
    while i < keys.len()
        invariant
            s == keys.deep_view(),
            i <= s.len(),
            sort_keys.deep_view() == s.take(i as int).map_values(|k: ApiKeyView| api_key_sort_key(k, field@)),
        decreases s.len() - i,
    {
        let ghost before = sort_keys.deep_view();
        sort_keys.push(api_key_key(&keys[i], field));
        assert(s[i as int] == keys@[i as int].deep_view());
        assert(sort_keys.deep_view() =~= before.push(api_key_sort_key(s[i as int], field@)));
        assert(s.take(i + 1).map_values(|k: ApiKeyView| api_key_sort_key(k, field@)) =~= s.take(
            i as int,
        ).map_values(|k: ApiKeyView| api_key_sort_key(k, field@)).push(api_key_sort_key(s[i as int], field@)));
        i = i + 1;
    }
    assert(s.take(i as int) =~= s);
    let descending = match direction {
        ApiKeySortDirection::Ascending => false,
        ApiKeySortDirection::Descending => true,
    };
    let sorted = sort_by_keys(keys, &sort_keys, descending);
    *keys = sorted;
}

/// Whether `r` is ordered by `time` of its keys: ascending, or descending
/// where `descending`.
pub open spec fn ordered_by_time(r: Seq<ApiKeyView>, time: spec_fn(ApiKeyView) -> i64, descending: bool) -> bool {
    forall|i: int, j: int|
        0 <= i < j < r.len() ==> if descending {
            time(#[trigger] r[i]) >= time(#[trigger] r[j])
        } else {
            time(r[i]) <= time(r[j])
        }
}

proof fn lemma_single_int_key(a: i64, b: i64)
    ensures
        key_lt(seq![SortPartV::Int(a)], seq![SortPartV::Int(b)]) == (a < b),
{
    let x = seq![SortPartV::Int(a)];
    let y = seq![SortPartV::Int(b)];
    assert(x.drop_first() =~= Seq::<SortPartV>::empty());
    assert(y.drop_first() =~= Seq::<SortPartV>::empty());
    assert(!key_lt(Seq::<SortPartV>::empty(), Seq::<SortPartV>::empty()));
    assert(x[0] == SortPartV::Int(a) && y[0] == SortPartV::Int(b));
    if a == b {
        assert(x[0] == y[0]);
        assert(key_lt(x, y) == key_lt(x.drop_first(), y.drop_first()));
    } else {
        assert(x[0] != y[0]);
        assert(key_lt(x, y) == part_lt(x[0], y[0]));
    }
}

proof fn lemma_sorted_by_int_field(
    r: Seq<ApiKeyView>,
    s: Seq<ApiKeyView>,
    field: Seq<char>,
    time: spec_fn(ApiKeyView) -> i64,
    descending: bool,
)
    requires
        forall|k: ApiKeyView| #[trigger] api_key_sort_key(k, field) == seq![SortPartV::Int(time(k))],
        stably_sorted(r, s, s.map_values(|k: ApiKeyView| api_key_sort_key(k, field)), descending),
    ensures
        ordered_by_time(r, time, descending),
{
    let keys = s.map_values(|k: ApiKeyView| api_key_sort_key(k, field));
    let p = choose|p: Seq<int>|
        #![trigger arrangement(p, s.len())]
        arrangement(p, s.len()) && stable_order(p, keys, descending) && r.len() == s.len() && forall|k: int|
            0 <= k < r.len() ==> #[trigger] r[k] == s[p[k]];
    assert forall|i: int, j: int| 0 <= i < j < r.len() implies (if descending {
        time(#[trigger] r[i]) >= time(#[trigger] r[j])
    } else {
        time(r[i]) <= time(r[j])
    }) by {
        assert(r[i] == s[p[i]] && r[j] == s[p[j]]);
        assert(!before(keys[p[j]], keys[p[i]], descending));
        assert(keys[p[i]] == api_key_sort_key(s[p[i]], field));
        assert(keys[p[j]] == api_key_sort_key(s[p[j]], field));
        lemma_single_int_key(time(r[i]), time(r[j]));
        lemma_single_int_key(time(r[j]), time(r[i]));
    }
}

proof fn lemma_sorted_by_part(
    r: Seq<ApiKeyView>,
    s: Seq<ApiKeyView>,
    field: Seq<char>,
    part: spec_fn(ApiKeyView) -> SortPartV,
    descending: bool,
)
    requires
        forall|k: ApiKeyView| #[trigger] api_key_sort_key(k, field) == seq![part(k)],
        stably_sorted(r, s, s.map_values(|k: ApiKeyView| api_key_sort_key(k, field)), descending),
    ensures
        forall|i: int, j: int|
            0 <= i < j < r.len() ==> !before(seq![part(#[trigger] r[j])], seq![part(#[trigger] r[i])], descending),
{
    let keys = s.map_values(|k: ApiKeyView| api_key_sort_key(k, field));
    let p = choose|p: Seq<int>|
        #![trigger arrangement(p, s.len())]
        arrangement(p, s.len()) && stable_order(p, keys, descending) && r.len() == s.len() && forall|k: int|
            0 <= k < r.len() ==> #[trigger] r[k] == s[p[k]];
    assert forall|i: int, j: int| 0 <= i < j < r.len() implies !before(
        seq![part(#[trigger] r[j])],
        seq![part(#[trigger] r[i])],
        descending,
    ) by {
        assert(r[i] == s[p[i]] && r[j] == s[p[j]]);
        assert(!before(keys[p[j]], keys[p[i]], descending));
        assert(keys[p[i]] == api_key_sort_key(s[p[i]], field));
        assert(keys[p[j]] == api_key_sort_key(s[p[j]], field));
    }
}

/// Keys sorted by `name`, `start` or `expiresAt` come in order of that
/// field, keys without it first (last where descending): no key is followed
/// by one whose field must come before its own.
pub proof fn law_sorted_by_optional_fields(r: Seq<ApiKeyView>, s: Seq<ApiKeyView>, descending: bool)
    ensures
        stably_sorted(r, s, s.map_values(|k: ApiKeyView| api_key_sort_key(k, "name"@)), descending) ==> forall|
            i: int,
            j: int,
        |
            0 <= i < j < r.len() ==> !before(
                seq![opt_text_part((#[trigger] r[j]).name)],
                seq![opt_text_part((#[trigger] r[i]).name)],
                descending,
            ),
        stably_sorted(r, s, s.map_values(|k: ApiKeyView| api_key_sort_key(k, "start"@)), descending) ==> forall|
            i: int,
            j: int,
        |
            0 <= i < j < r.len() ==> !before(
                seq![opt_text_part((#[trigger] r[j]).start)],
                seq![opt_text_part((#[trigger] r[i]).start)],
                descending,
            ),
        stably_sorted(r, s, s.map_values(|k: ApiKeyView| api_key_sort_key(k, "expiresAt"@)), descending)
            ==> forall|i: int, j: int|
            0 <= i < j < r.len() ==> !before(
                seq![opt_int_part((#[trigger] r[j]).expires_at)],
                seq![opt_int_part((#[trigger] r[i]).expires_at)],
                descending,
            ),
{
    reveal_strlit("updatedAt");
    reveal_strlit("createdAt");
    reveal_strlit("name");
    reveal_strlit("start");
    reveal_strlit("expiresAt");
    assert("name"@[0] != "createdAt"@[0] && "name"@[0] != "updatedAt"@[0]);
    assert("start"@[0] != "createdAt"@[0] && "start"@[0] != "updatedAt"@[0] && "start"@[0] != "name"@[0]);
    assert("expiresAt"@[0] != "createdAt"@[0] && "expiresAt"@[0] != "updatedAt"@[0] && "expiresAt"@[0]
        != "name"@[0]);
    if stably_sorted(r, s, s.map_values(|k: ApiKeyView| api_key_sort_key(k, "name"@)), descending) {
        lemma_sorted_by_part(r, s, "name"@, |k: ApiKeyView| opt_text_part(k.name), descending);
    }
    if stably_sorted(r, s, s.map_values(|k: ApiKeyView| api_key_sort_key(k, "start"@)), descending) {
        lemma_sorted_by_part(r, s, "start"@, |k: ApiKeyView| opt_text_part(k.start), descending);
    }
    if stably_sorted(r, s, s.map_values(|k: ApiKeyView| api_key_sort_key(k, "expiresAt"@)), descending) {
        lemma_sorted_by_part(r, s, "expiresAt"@, |k: ApiKeyView| opt_int_part(k.expires_at), descending);
    }
}

/// Keys sorted by `updatedAt` come in order of their update times, and keys
/// sorted by `createdAt` in order of their creation times: ascending, or
/// descending where asked.
pub proof fn law_sorted_by_time_fields(r: Seq<ApiKeyView>, s: Seq<ApiKeyView>, descending: bool)
    ensures
        stably_sorted(r, s, s.map_values(|k: ApiKeyView| api_key_sort_key(k, "updatedAt"@)), descending)
            ==> ordered_by_time(r, |k: ApiKeyView| k.updated_at, descending),
        stably_sorted(r, s, s.map_values(|k: ApiKeyView| api_key_sort_key(k, "createdAt"@)), descending)
            ==> ordered_by_time(r, |k: ApiKeyView| k.created_at, descending),
{
    reveal_strlit("updatedAt");
    reveal_strlit("createdAt");
    assert("updatedAt"@[0] != "createdAt"@[0]);
    if stably_sorted(r, s, s.map_values(|k: ApiKeyView| api_key_sort_key(k, "updatedAt"@)), descending) {
        lemma_sorted_by_int_field(r, s, "updatedAt"@, |k: ApiKeyView| k.updated_at, descending);
    }
    if stably_sorted(r, s, s.map_values(|k: ApiKeyView| api_key_sort_key(k, "createdAt"@)), descending) {
        lemma_sorted_by_int_field(r, s, "createdAt"@, |k: ApiKeyView| k.created_at, descending);
    }
}

/// Whether every entry comes strictly before the later ones.
pub open spec fn strictly_increasing(s: Seq<Seq<char>>) -> bool {
    forall|i: int, j: int| 0 <= i < j < s.len() ==> lex_lt(#[trigger] s[i], #[trigger] s[j])
}

/// The canonical form of an action list: its distinct actions in increasing
/// order.
pub open spec fn canonical_actions(r: Seq<Seq<char>>, s: Seq<Seq<char>>) -> bool {
    strictly_increasing(r) && r.to_set() == s.to_set()
}

fn text_key(a: &String) -> (r: Vec<SortPart>)
    ensures
        r.deep_view() == seq![SortPartV::Text(a@)],
{
    let r = vec![SortPart::Text(a.exact_clone())];
    assert(r.deep_view() =~= seq![SortPartV::Text(a@)]);
    r
}

/// The distinct actions of a list, in increasing order.
pub fn canonicalize_actions(actions: &Vec<String>) -> (r: Vec<String>)
    ensures
        canonical_actions(r.deep_view(), actions.deep_view()),
{
    let ghost s = actions.deep_view();
    let ghost key_of = |a: Seq<char>| seq![SortPartV::Text(a)];
    let mut keys: Vec<Vec<SortPart>> = Vec::new();
    let mut i: usize = 0;
    while i < actions.len()
        invariant
            s == actions.deep_view(),
            key_of == (|a: Seq<char>| seq![SortPartV::Text(a)]),
            i <= s.len(),
            keys.deep_view() == s.take(i as int).map_values(key_of),
        decreases s.len() - i,
    {
        let ghost prev = keys.deep_view();
        keys.push(text_key(&actions[i]));
        assert(s[i as int] == actions@[i as int]@);
        assert(keys.deep_view() =~= prev.push(key_of(s[i as int])));
        assert(s.take(i + 1).map_values(key_of) =~= s.take(i as int).map_values(key_of).push(key_of(s[i as int])));
        i = i + 1;
    }
    assert(s.take(i as int) =~= s);
    let sorted = sort_by_keys(actions, &keys, false);
    let ghost t = sorted.deep_view();
    let ghost ks = s.map_values(key_of);
    proof {
        assert(ks == keys.deep_view());
    }
    // The sorted list holds the same actions, in non-decreasing order.
    let ghost p = choose|p: Seq<int>|
        #![trigger arrangement(p, s.len())]
        arrangement(p, s.len()) && stable_order(p, ks, false) && t.len() == s.len() && forall|k: int|
            0 <= k < t.len() ==> #[trigger] t[k] == s[p[k]];
    proof {
        assert forall|a: int, b: int| 0 <= a < b < t.len() implies !lex_lt(#[trigger] t[b], #[trigger] t[a]) by {
            assert(!before(ks[p[b]], ks[p[a]], false));
            assert(ks[p[b]] == seq![SortPartV::Text(t[b])]);
            assert(ks[p[a]] == seq![SortPartV::Text(t[a])]);
            assert(seq![SortPartV::Text(t[b])].drop_first() =~= Seq::<SortPartV>::empty());
            assert(seq![SortPartV::Text(t[a])].drop_first() =~= Seq::<SortPartV>::empty());
            if lex_lt(t[b], t[a]) {
                lemma_lex_irreflexive(t[a]);
                assert(key_lt(seq![SortPartV::Text(t[b])], seq![SortPartV::Text(t[a])]));
            }
        }
        assert forall|x: Seq<char>| t.to_set().contains(x) <==> s.to_set().contains(x) by {
            if t.to_set().contains(x) {
                let k = choose|k: int| 0 <= k < t.len() && t[k] == x;
                assert(s[p[k]] == x);
            }
            if s.to_set().contains(x) {
                let j = choose|j: int| 0 <= j < s.len() && s[j] == x;
                lemma_arrangement_onto(p, s.len(), j);
                let k = choose|k: int| 0 <= k < p.len() && p[k] == j;
                assert(t[k] == x);
            }
        }
        assert(t.to_set() =~= s.to_set());
    }
    let mut out: Vec<String> = Vec::new();
    let mut k: usize = 0;
    while k < sorted.len()
        invariant
            t == sorted.deep_view(),
            k <= t.len(),
            forall|a: int, b: int| 0 <= a < b < t.len() ==> !lex_lt(#[trigger] t[b], #[trigger] t[a]),
            strictly_increasing(out.deep_view()),
            out.deep_view().to_set() == t.take(k as int).to_set(),
            k > 0 ==> out@.len() > 0 && out.deep_view().last() == t[k - 1],
            k == 0 ==> out@.len() == 0,
        decreases t.len() - k,
    {
        assert(t[k as int] == sorted@[k as int]@);
        let ghost o = out.deep_view();
        let keep = if out.len() == 0 {
            true
        } else {
            !str_eq(out[out.len() - 1].as_str(), sorted[k].as_str())
        };
        if keep {
            out.push(sorted[k].exact_clone());
            proof {
                let n = out.deep_view();
                assert(n =~= o.push(t[k as int]));
                assert forall|a: int, b: int| 0 <= a < b < n.len() implies lex_lt(#[trigger] n[a], #[trigger] n[b]) by {
                    if b == n.len() - 1 {
                        let last = o.last();
                        assert(o[o.len() - 1] == out@[o.len() - 1]@);
                        assert(last == t[k - 1]);
                        assert(!lex_lt(t[k as int], t[k - 1]));
                        lemma_lex_total(t[k - 1], t[k as int]);
                        assert(lex_lt(last, t[k as int]));
                        if a < o.len() - 1 {
                            assert(lex_lt(o[a], last));
                            lemma_lex_transitive(o[a], last, t[k as int]);
                        }
                    } else {
                        assert(n[a] == o[a] && n[b] == o[b]);
                    }
                }
                assert(t.take(k + 1) =~= t.take(k as int).push(t[k as int]));
                o.lemma_push_to_set_commute(t[k as int]);
                t.take(k as int).lemma_push_to_set_commute(t[k as int]);
            }
        } else {
            proof {
                assert(o.last() == out@[out@.len() - 1]@);
                assert(t.take(k + 1) =~= t.take(k as int).push(t[k as int]));
                t.take(k as int).lemma_push_to_set_commute(t[k as int]);
                assert(t.take(k as int).to_set().contains(t[k - 1]));
                assert(t.take(k + 1).to_set() =~= t.take(k as int).to_set());
            }
        }
        k = k + 1;
    }
    proof {
        assert(t.take(k as int) =~= t);
    }
    out
}

/// Puts every action list of a permission set into canonical form.
pub fn normalize_permissions(permissions: &mut Option<Vec<ApiKeyPermission>>)
    ensures
        match *old(permissions) {
            None => *final(permissions) is None,
            Some(ps) => *final(permissions) matches Some(qs) && qs@.len() == ps@.len() && forall|i: int|
                0 <= i < ps@.len() ==> {
                    &&& (#[trigger] qs.deep_view()[i]).0 == ps.deep_view()[i].0
                    &&& canonical_actions(qs.deep_view()[i].1, ps.deep_view()[i].1)
                },
        },
{
    match permissions.take() {
        None => {},
        Some(ps) => {
            let ghost old_ps = ps.deep_view();
            let mut next: Vec<ApiKeyPermission> = Vec::new();
            let mut i: usize = 0;
            while i < ps.len()
                invariant
                    old_ps == ps.deep_view(),
                    i <= old_ps.len(),
                    next@.len() == i,
                    forall|j: int|
                        0 <= j < i ==> {
                            &&& (#[trigger] next.deep_view()[j]).0 == old_ps[j].0
                            &&& canonical_actions(next.deep_view()[j].1, old_ps[j].1)
                        },
                decreases old_ps.len() - i,
            {
                assert(old_ps[i as int] == ps@[i as int].deep_view());
                let entry = ApiKeyPermission {
                    resource: ps[i].resource.exact_clone(),
                    actions: canonicalize_actions(&ps[i].actions),
                };
                let ghost prev = next.deep_view();
                next.push(entry);
                proof {
                    assert forall|j: int| 0 <= j < i + 1 implies {
                        &&& (#[trigger] next.deep_view()[j]).0 == old_ps[j].0
                        &&& canonical_actions(next.deep_view()[j].1, old_ps[j].1)
                    } by {
                        assert(next.deep_view()[j] == next@[j].deep_view());
                        if j < i {
                            assert(prev[j] == next@[j].deep_view());
                        }
                    }
                }
                i = i + 1;
            }
            *permissions = Some(next);
        },
    }
}

proof fn lemma_increasing_arrangement(p: Seq<int>, n: nat, a: int, b: int)
    requires
        arrangement(p, n),
        forall|x: int, y: int| 0 <= x < y < p.len() ==> #[trigger] p[x] < #[trigger] p[y],
        0 <= a <= b < p.len(),
    ensures
        p[b] - p[a] >= b - a,
    decreases b - a,
{
    if a < b {
        lemma_increasing_arrangement(p, n, a + 1, b);
        assert(p[a] < p[a + 1]);
    }
}

/// Sorting by a field that is not one of the sort fields keeps the order.
pub proof fn law_unknown_sort_field_keeps_order(
    r: Seq<ApiKeyView>,
    s: Seq<ApiKeyView>,
    field: Seq<char>,
    descending: bool,
)
    requires
        field != "createdAt"@ && field != "updatedAt"@ && field != "name"@ && field != "expiresAt"@ && field
            != "start"@,
        stably_sorted(r, s, s.map_values(|k: ApiKeyView| api_key_sort_key(k, field)), descending),
    ensures
        r == s,
{
    let ks = s.map_values(|k: ApiKeyView| api_key_sort_key(k, field));
    let p = choose|p: Seq<int>|
        #![trigger arrangement(p, s.len())]
        arrangement(p, s.len()) && stable_order(p, ks, descending) && r.len() == s.len() && forall|k: int|
            0 <= k < r.len() ==> #[trigger] r[k] == s[p[k]];
    assert forall|x: int, y: int| 0 <= x < y < p.len() implies #[trigger] p[x] < #[trigger] p[y] by {
        assert(ks[p[x]] == Seq::<SortPartV>::empty());
        assert(ks[p[y]] == Seq::<SortPartV>::empty());
        assert(!before(ks[p[x]], ks[p[y]], descending));
    }
    assert forall|k: int| 0 <= k < r.len() implies #[trigger] r[k] == s[k] by {
        lemma_increasing_arrangement(p, s.len(), 0, k);
        lemma_increasing_arrangement(p, s.len(), k, p.len() - 1);
        assert(p[k] == k);
    }
    assert(r =~= s);
}

} // verus!
