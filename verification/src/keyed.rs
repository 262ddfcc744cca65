//! Ordered maps from string keys to values, kept as vectors of entries in
//! increasing key order (the order of `String`'s `Ord`).

use crate::exact_clone::ExactClone;
use crate::text::{compare_str, lemma_lex_irreflexive, lemma_lex_total, lemma_lex_transitive, lex_lt, Precedence};
use vstd::prelude::*;

verus! {

/// One entry of an ordered map.
#[derive(Clone, Debug)]
pub struct Keyed<V> {
    pub key: String,
    pub value: V,
}

impl<V: DeepView> DeepView for Keyed<V> {
    type V = (Seq<char>, V::V);

    open spec fn deep_view(&self) -> (Seq<char>, V::V) {
        (self.key@, self.value.deep_view())
    }
}

impl<V: ExactClone> ExactClone for Keyed<V> {
    fn exact_clone(&self) -> (r: Keyed<V>) {
        Keyed { key: self.key.exact_clone(), value: self.value.exact_clone() }
    }
}

/// Entries in strictly increasing key order.
pub open spec fn sorted_keys<A>(s: Seq<(Seq<char>, A)>) -> bool {
    forall|i: int, j: int| 0 <= i < j < s.len() ==> lex_lt(#[trigger] s[i].0, #[trigger] s[j].0)
}

/// Whether some entry has key `k`.
pub open spec fn has_key<A>(s: Seq<(Seq<char>, A)>, k: Seq<char>) -> bool {
    exists|i: int| 0 <= i < s.len() && s[i].0 == k
}

/// A position of an entry with key `k`, where there is one.
pub open spec fn key_index<A>(s: Seq<(Seq<char>, A)>, k: Seq<char>) -> int {
    choose|i: int| 0 <= i < s.len() && s[i].0 == k
}

/// The value of the entry with key `k`.
pub open spec fn lookup<A>(s: Seq<(Seq<char>, A)>, k: Seq<char>) -> Option<A> {
    if has_key(s, k) {
        Some(s[key_index(s, k)].1)
    } else {
        None
    }
}

/// The map that the entries represent.
pub open spec fn as_map<A>(s: Seq<(Seq<char>, A)>) -> Map<Seq<char>, A> {
    Map::new(|k: Seq<char>| has_key(s, k), |k: Seq<char>| lookup(s, k)->0)
}

/// Two entry sequences that agree on every lookup represent the same map.
pub proof fn lemma_as_map_from_lookup<A>(s: Seq<(Seq<char>, A)>, t: Seq<(Seq<char>, A)>)
    requires
        forall|k: Seq<char>| #[trigger] lookup(s, k) == lookup(t, k),
    ensures
        as_map(s) == as_map(t),
{
    assert forall|k: Seq<char>| has_key(s, k) == has_key(t, k) by {
        assert(lookup(s, k) == lookup(t, k));
    }
    assert(as_map(s) =~= as_map(t));
}

/// Lookup answers what the represented map holds.
pub proof fn lemma_lookup_as_map<A>(s: Seq<(Seq<char>, A)>, k: Seq<char>)
    ensures
        lookup(s, k) == (if as_map(s).dom().contains(k) {
            Some(as_map(s)[k])
        } else {
            None::<A>
        }),
{
}

/// The entry at position `i` is the one that lookup finds.
pub proof fn lemma_lookup_at<A>(s: Seq<(Seq<char>, A)>, i: int)
    requires
        sorted_keys(s),
        0 <= i < s.len(),
    ensures
        lookup(s, s[i].0) == Some(s[i].1),
{
    let k = s[i].0;
    assert(has_key(s, k)) by {
        assert(0 <= i < s.len() && s[i].0 == k);
    }
    let j = key_index(s, k);
    assert(0 <= j < s.len() && s[j].0 == k);
    if j != i {
        lemma_lex_irreflexive(k);
        if j < i {
            assert(lex_lt(s[j].0, s[i].0));
        } else {
            assert(lex_lt(s[i].0, s[j].0));
        }
    }
    assert(lookup(s, k) == Some(s[j].1));
}

/// Position of the entry with key `key`.
pub fn find_key<V: DeepView>(v: &Vec<Keyed<V>>, key: &str) -> (r: Option<usize>)
    requires
        sorted_keys(v.deep_view()),
    ensures
        match r {
            Some(i) => i < v@.len() && v@[i as int].key@ == key@ && lookup(v.deep_view(), key@)
                == Some(v@[i as int].value.deep_view()),
            None => !has_key(v.deep_view(), key@) && lookup(v.deep_view(), key@) is None,
        },
{
    let mut i: usize = 0;
    while i < v.len()
        invariant
            i <= v@.len(),
            sorted_keys(v.deep_view()),
            forall|k: int| 0 <= k < i ==> #[trigger] v.deep_view()[k].0 != key@,
        decreases v@.len() - i,
    {
        if crate::text::str_eq(v[i].key.as_str(), key) {
            proof {
                assert(v.deep_view()[i as int] == v@[i as int].deep_view());
                lemma_lookup_at(v.deep_view(), i as int);
            }
            return Some(i);
        }
        assert(v.deep_view()[i as int] == v@[i as int].deep_view());
        i = i + 1;
    }
    None
}

/// Inserts `value` under `key`, replacing the value already there.
pub fn upsert<V: DeepView>(v: &mut Vec<Keyed<V>>, key: String, value: V)
    requires
        sorted_keys(old(v).deep_view()),
    ensures
        sorted_keys(final(v).deep_view()),
        lookup(final(v).deep_view(), key@) == Some(value.deep_view()),
        forall|k: Seq<char>| k != key@ ==> lookup(final(v).deep_view(), k) == lookup(
            old(v).deep_view(),
            k,
        ),
        as_map(final(v).deep_view()) == as_map(old(v).deep_view()).insert(key@, value.deep_view()),
        forall|j: int|
            0 <= j < final(v).deep_view().len() ==> #[trigger] final(v).deep_view()[j] == (
                key@,
                value.deep_view(),
            ) || old(v).deep_view().contains(final(v).deep_view()[j]),
        exists|i: int|
            (0 <= i < old(v).deep_view().len() && final(v).deep_view() == old(v).deep_view().update(
                i,
                (key@, value.deep_view()),
            )) || (0 <= i <= old(v).deep_view().len() && final(v).deep_view() == old(
                v,
            ).deep_view().insert(i, (key@, value.deep_view()))),
{
    upsert_entries(v, key, value);
    proof {
        let t = v.deep_view();
        let m = as_map(old(v).deep_view()).insert(key@, value.deep_view());
        assert forall|k: Seq<char>| has_key(t, k) == m.dom().contains(k) by {
            if k != key@ {
                assert(lookup(t, k) == lookup(old(v).deep_view(), k));
            }
        }
        assert forall|k: Seq<char>| m.dom().contains(k) implies as_map(t)[k] == m[k] by {
            if k != key@ {
                assert(lookup(t, k) == lookup(old(v).deep_view(), k));
            }
        }
        assert(as_map(t) =~= m);
    }
}

fn upsert_entries<V: DeepView>(v: &mut Vec<Keyed<V>>, key: String, value: V)
    requires
        sorted_keys(old(v).deep_view()),
    ensures
        sorted_keys(final(v).deep_view()),
        lookup(final(v).deep_view(), key@) == Some(value.deep_view()),
        forall|k: Seq<char>| k != key@ ==> lookup(final(v).deep_view(), k) == lookup(
            old(v).deep_view(),
            k,
        ),
        forall|j: int|
            0 <= j < final(v).deep_view().len() ==> #[trigger] final(v).deep_view()[j] == (
                key@,
                value.deep_view(),
            ) || old(v).deep_view().contains(final(v).deep_view()[j]),
        exists|i: int|
            (0 <= i < old(v).deep_view().len() && final(v).deep_view() == old(v).deep_view().update(
                i,
                (key@, value.deep_view()),
            )) || (0 <= i <= old(v).deep_view().len() && final(v).deep_view() == old(
                v,
            ).deep_view().insert(i, (key@, value.deep_view()))),
{
    let ghost s = v.deep_view();
    let ghost kv = key@;
    let ghost vv = value.deep_view();
    let mut i: usize = 0;
    while i < v.len()
        invariant
            s == v.deep_view(),
            kv == key@,
            sorted_keys(s),
            i <= s.len(),
            forall|k: int| 0 <= k < i ==> lex_lt(#[trigger] s[k].0, kv),
        ensures
            i <= s.len(),
            forall|k: int| 0 <= k < i ==> lex_lt(#[trigger] s[k].0, kv),
            i < s.len() ==> !lex_lt(s[i as int].0, kv) || s[i as int].0 == kv,
        decreases s.len() - i,
    {
        match compare_str(v[i].key.as_str(), key.as_str()) {
            Precedence::Before => {
                assert(s[i as int] == v@[i as int].deep_view());
                i = i + 1;
            },
            _ => {
                assert(s[i as int] == v@[i as int].deep_view());
                break;
            },
        }
    }
    let ghost inserted = s.insert(i as int, (kv, vv));
    if i < v.len() && compare_str(v[i].key.as_str(), key.as_str()) == Precedence::Same {
        let ghost replaced = s.update(i as int, (kv, vv));
        v.set(i, Keyed { key, value });
        proof {
            assert(v.deep_view() =~= replaced);
            assert(s[i as int].0 == kv);
            assert forall|a: int, b: int| 0 <= a < b < replaced.len() implies lex_lt(
                #[trigger] replaced[a].0,
                #[trigger] replaced[b].0,
            ) by {
                assert(lex_lt(s[a].0, s[b].0));
            }
            lemma_lookup_at(replaced, i as int);
            assert(v.deep_view() == s.update(i as int, (kv, vv)));
            assert forall|j: int| 0 <= j < replaced.len() implies #[trigger] replaced[j] == (kv, vv)
                || s.contains(replaced[j]) by {
                if j != i {
                    assert(replaced[j] == s[j]);
                }
            }
            assert forall|k: Seq<char>| k != kv implies lookup(replaced, k) == lookup(s, k) by {
                if has_key(s, k) {
                    let j = choose|j: int| 0 <= j < s.len() && s[j].0 == k;
                    lemma_lookup_at(s, j);
                    assert(replaced[j] == s[j]);
                    lemma_lookup_at(replaced, j);
                }
                if has_key(replaced, k) {
                    let j = choose|j: int| 0 <= j < replaced.len() && replaced[j].0 == k;
                    assert(j != i);
                    assert(s[j] == replaced[j]);
                }
            }
        }
    } else {
        proof {
            if i < s.len() {
                assert(s[i as int] == v@[i as int].deep_view());
                lemma_lex_total(s[i as int].0, kv);
                assert(lex_lt(kv, s[i as int].0));
            }
        }
        v.insert(i, Keyed { key, value });
        proof {
            assert(v.deep_view() =~= inserted);
            assert forall|a: int, b: int| 0 <= a < b < inserted.len() implies lex_lt(
                #[trigger] inserted[a].0,
                #[trigger] inserted[b].0,
            ) by {
                if b < i {
                    assert(lex_lt(s[a].0, s[b].0));
                } else if b == i {
                    assert(lex_lt(s[a].0, kv));
                } else if a == i {
                    assert(inserted[b] == s[b - 1]);
                    if b - 1 > i {
                        assert(lex_lt(s[i as int].0, s[b - 1].0));
                        lemma_lex_transitive(kv, s[i as int].0, s[b - 1].0);
                    }
                } else if a < i {
                    assert(lex_lt(s[a].0, kv));
                    assert(lex_lt(s[a].0, s[i as int].0));
                    if b - 1 > i {
                        assert(lex_lt(s[i as int].0, s[b - 1].0));
                        lemma_lex_transitive(s[a].0, s[i as int].0, s[b - 1].0);
                    }
                } else {
                    assert(lex_lt(s[a - 1].0, s[b - 1].0));
                }
            }
            lemma_lookup_at(inserted, i as int);
            assert(v.deep_view() == s.insert(i as int, (kv, vv)));
            assert forall|j: int| 0 <= j < inserted.len() implies #[trigger] inserted[j] == (kv, vv)
                || s.contains(inserted[j]) by {
                if j < i {
                    assert(inserted[j] == s[j]);
                } else if j > i {
                    assert(inserted[j] == s[j - 1]);
                }
            }
            assert forall|k: Seq<char>| k != kv implies lookup(inserted, k) == lookup(s, k) by {
                if has_key(s, k) {
                    let j = choose|j: int| 0 <= j < s.len() && s[j].0 == k;
                    lemma_lookup_at(s, j);
                    if j < i {
                        assert(inserted[j] == s[j]);
                        lemma_lookup_at(inserted, j);
                    } else {
                        assert(inserted[j + 1] == s[j]);
                        lemma_lookup_at(inserted, j + 1);
                    }
                }
                if has_key(inserted, k) {
                    let j = choose|j: int| 0 <= j < inserted.len() && inserted[j].0 == k;
                    assert(j != i);
                    if j < i {
                        assert(s[j] == inserted[j]);
                    } else {
                        assert(s[j - 1] == inserted[j]);
                    }
                }
            }
        }
    }
}

/// Removes the entry with key `key`, if any, and returns its value.
pub fn remove_key<V: DeepView>(v: &mut Vec<Keyed<V>>, key: &str) -> (r: Option<V>)
    requires
        sorted_keys(old(v).deep_view()),
    ensures
        sorted_keys(final(v).deep_view()),
        lookup(final(v).deep_view(), key@) is None,
        forall|k: Seq<char>| k != key@ ==> lookup(final(v).deep_view(), k) == lookup(
            old(v).deep_view(),
            k,
        ),
        match r {
            Some(x) => lookup(old(v).deep_view(), key@) == Some(x.deep_view()),
            None => lookup(old(v).deep_view(), key@) is None,
        },
        as_map(final(v).deep_view()) == as_map(old(v).deep_view()).remove(key@),
{
    let r = remove_entry(v, key);
    proof {
        let t = v.deep_view();
        let m = as_map(old(v).deep_view()).remove(key@);
        assert forall|k: Seq<char>| has_key(t, k) == m.dom().contains(k) by {
            if k != key@ {
                assert(lookup(t, k) == lookup(old(v).deep_view(), k));
            } else {
                assert(lookup(t, k) is None);
            }
        }
        assert forall|k: Seq<char>| m.dom().contains(k) implies as_map(t)[k] == m[k] by {
            assert(lookup(t, k) == lookup(old(v).deep_view(), k));
        }
        assert(as_map(t) =~= m);
    }
    r
}

fn remove_entry<V: DeepView>(v: &mut Vec<Keyed<V>>, key: &str) -> (r: Option<V>)
    requires
        sorted_keys(old(v).deep_view()),
    ensures
        sorted_keys(final(v).deep_view()),
        lookup(final(v).deep_view(), key@) is None,
        forall|k: Seq<char>| k != key@ ==> lookup(final(v).deep_view(), k) == lookup(
            old(v).deep_view(),
            k,
        ),
        match r {
            Some(x) => lookup(old(v).deep_view(), key@) == Some(x.deep_view()),
            None => lookup(old(v).deep_view(), key@) is None,
        },
{
    let ghost s = v.deep_view();
    match find_key(v, key) {
        None => None,
        Some(i) => {
            let removed = v.remove(i);
            proof {
                let t = s.remove(i as int);
                assert(v.deep_view() =~= t);
                assert(removed.deep_view() == s[i as int]);
                assert forall|a: int, b: int| 0 <= a < b < t.len() implies lex_lt(
                    #[trigger] t[a].0,
                    #[trigger] t[b].0,
                ) by {
                    if b < i {
                        assert(lex_lt(s[a].0, s[b].0));
                    } else if a < i {
                        assert(lex_lt(s[a].0, s[b + 1].0));
                    } else {
                        assert(lex_lt(s[a + 1].0, s[b + 1].0));
                    }
                }
                if has_key(t, key@) {
                    let j = choose|j: int| 0 <= j < t.len() && t[j].0 == key@;
                    if j < i {
                        assert(lex_lt(s[j].0, s[i as int].0));
                        lemma_lex_irreflexive(key@);
                    } else {
                        assert(lex_lt(s[i as int].0, s[j + 1].0));
                        lemma_lex_irreflexive(key@);
                    }
                }
                assert forall|k: Seq<char>| k != key@ implies lookup(t, k) == lookup(s, k) by {
                    if has_key(s, k) {
                        let j = choose|j: int| 0 <= j < s.len() && s[j].0 == k;
                        lemma_lookup_at(s, j);
                        assert(j != i);
                        if j < i {
                            assert(t[j] == s[j]);
                            lemma_lookup_at(t, j);
                        } else {
                            assert(t[j - 1] == s[j]);
                            lemma_lookup_at(t, j - 1);
                        }
                    }
                    if has_key(t, k) {
                        let j = choose|j: int| 0 <= j < t.len() && t[j].0 == k;
                        if j < i {
                            assert(s[j] == t[j]);
                        } else {
                            assert(s[j + 1] == t[j]);
                        }
                    }
                }
            }
            Some(removed.value)
        },
    }
}

/// Removes the entries of all of `keys`.
pub fn remove_all<V: DeepView>(v: &mut Vec<Keyed<V>>, keys: &Vec<String>)
    requires
        sorted_keys(old(v).deep_view()),
    ensures
        sorted_keys(final(v).deep_view()),
        as_map(final(v).deep_view()) == as_map(old(v).deep_view()).remove_keys(keys.deep_view().to_set()),
{
    let ghost start = as_map(v.deep_view());
    let ghost ks = keys.deep_view();
    let mut j: usize = 0;
    assert(ks.take(0).to_set() =~= Set::<Seq<char>>::empty());
    assert(start.remove_keys(Set::<Seq<char>>::empty()) =~= start);
    while j < keys.len()
        invariant
            ks == keys.deep_view(),
            j <= ks.len(),
            sorted_keys(v.deep_view()),
            as_map(v.deep_view()) == start.remove_keys(ks.take(j as int).to_set()),
        decreases ks.len() - j,
    {
        assert(ks[j as int] == keys@[j as int]@);
        remove_key(v, keys[j].as_str());
        proof {
            assert(ks.take(j + 1) =~= ks.take(j as int).push(ks[j as int]));
            ks.take(j as int).lemma_push_to_set_commute(ks[j as int]);
            assert(start.remove_keys(ks.take(j as int).to_set()).remove(ks[j as int]) =~= start.remove_keys(
                ks.take(j as int).to_set().insert(ks[j as int]),
            ));
        }
        j = j + 1;
    }
    assert(ks.take(j as int) =~= ks);
}

} // verus!
