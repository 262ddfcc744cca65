//! OAuth scope lists: comma-separated texts, read as trimmed non-empty
//! scopes, and merged without repeats.

use crate::text::{string_from_chars, to_chars, trim, trim_end, trim_start, trimmed, unicode_whitespace};
use vstd::prelude::*;

verus! {

/// The pieces of a text between commas (`str::split(',')`): one more piece
/// than there are commas.
pub open spec fn split_commas(s: Seq<char>) -> Seq<Seq<char>>
    decreases s.len(),
{
    if s.len() == 0 {
        seq![Seq::<char>::empty()]
    } else {
        let pieces = split_commas(s.drop_last());
        if s.last() == ',' {
            pieces.push(Seq::<char>::empty())
        } else {
            pieces.update(pieces.len() - 1, pieces.last().push(s.last()))
        }
    }
}

/// The scopes that a comma-separated text lists: its trimmed, non-empty
/// pieces, in order.
pub open spec fn scope_list(s: Seq<char>) -> Seq<Seq<char>> {
    split_commas(s).map_values(|p: Seq<char>| trim(p)).filter(|p: Seq<char>| p.len() > 0)
}

/// The entries of a list with later repeats dropped.
pub open spec fn without_repeats(s: Seq<Seq<char>>) -> Seq<Seq<char>>
    decreases s.len(),
{
    if s.len() == 0 {
        s
    } else {
        let kept = without_repeats(s.drop_last());
        if kept.contains(s.last()) {
            kept
        } else {
            kept.push(s.last())
        }
    }
}

/// The entries of a list joined by commas.
pub open spec fn join_commas(s: Seq<Seq<char>>) -> Seq<char>
    decreases s.len(),
{
    if s.len() == 0 {
        Seq::empty()
    } else if s.len() == 1 {
        s[0]
    } else {
        join_commas(s.drop_last()) + seq![','] + s.last()
    }
}

proof fn lemma_split_nonempty(s: Seq<char>)
    ensures
        split_commas(s).len() >= 1,
    decreases s.len(),
{
    if s.len() > 0 {
        lemma_split_nonempty(s.drop_last());
    }
}

/// The pieces of a text between commas.
pub fn split_on_commas(s: &str) -> (r: Vec<String>)
    ensures
        r.deep_view() == split_commas(s@),
{
    let chars = to_chars(s);
    let mut pieces: Vec<String> = Vec::new();
    let mut current: Vec<char> = Vec::new();
    let mut i: usize = 0;
    assert(s@.take(0) =~= Seq::<char>::empty());
    while i < chars.len()
        invariant
            chars@ == s@,
            i <= chars@.len(),
            pieces.deep_view().push(current@) == split_commas(s@.take(i as int)),
        decreases chars@.len() - i,
    {
        let c = chars[i];
        let ghost prefix = s@.take(i as int);
        assert(s@.take(i + 1).drop_last() =~= prefix);
        assert(s@.take(i + 1).last() == c);
        proof {
            lemma_split_nonempty(prefix);
        }
        if c == ',' {
            let ghost before = pieces.deep_view();
            let piece = string_from_chars(&current);
            pieces.push(piece);
            current = Vec::new();
            assert(pieces.deep_view() =~= before.push(piece@));
            assert(pieces.deep_view().push(current@) =~= split_commas(s@.take(i + 1)));
        } else {
            let ghost before = pieces.deep_view();
            let ghost cur = current@;
            current.push(c);
            assert(before.push(cur).update(before.len() as int, cur.push(c)) =~= before.push(current@));
            assert(pieces.deep_view().push(current@) =~= split_commas(s@.take(i + 1)));
        }
        i = i + 1;
    }
    assert(s@.take(i as int) =~= s@);
    let ghost before = pieces.deep_view();
    let last = string_from_chars(&current);
    pieces.push(last);
    assert(pieces.deep_view() =~= before.push(current@));
    pieces
}

/// The scopes that an optional comma-separated text lists.
pub fn parse_scopes(scope: Option<&str>) -> (r: Vec<String>)
    ensures
        r.deep_view() == scope_list(
            match scope {
                Some(s) => s@,
                None => Seq::<char>::empty(),
            },
        ),
{
    let text: &str = match scope {
        Some(s) => s,
        None => "",
    };
    proof {
        reveal_strlit("");
    }
    let pieces = split_on_commas(text);
    let ghost ps = pieces.deep_view();
    let ghost trimmed_all = ps.map_values(|p: Seq<char>| trim(p));
    let ghost keep = |p: Seq<char>| p.len() > 0;
    let mut r: Vec<String> = Vec::new();
    let mut i: usize = 0;
    while i < pieces.len()
        invariant
            ps == pieces.deep_view(),
            trimmed_all == ps.map_values(|p: Seq<char>| trim(p)),
            keep == (|p: Seq<char>| p.len() > 0),
            i <= ps.len(),
            r.deep_view() == trimmed_all.take(i as int).filter(keep),
        decreases ps.len() - i,
    {
        let t = trimmed(pieces[i].as_str());
        assert(ps[i as int] == pieces@[i as int]@);
        assert(trimmed_all.take(i + 1) =~= trimmed_all.take(i as int).push(t@));
        proof {
            crate::scim::memory::lemma_filter_push(trimmed_all.take(i as int), t@, keep);
        }
        if !t.as_str().is_empty() {
            let ghost before = r.deep_view();
            r.push(t);
            assert(r.deep_view() =~= before.push(r@[before.len() as int]@));
        } else {
            proof {
                assert(t@.len() == 0);
            }
        }
        i = i + 1;
    }
    assert(trimmed_all.take(i as int) =~= trimmed_all);
    r
}

/// Appends the entries of `items` that `merged` does not hold yet.
fn add_new_entries(merged: &mut Vec<String>, items: &Vec<String>, Ghost(base): Ghost<Seq<Seq<char>>>)
    requires
        old(merged).deep_view() == without_repeats(base),
    ensures
        final(merged).deep_view() == without_repeats(base + items.deep_view()),
{
    let ghost all = base + items.deep_view();
    let mut i: usize = 0;
    assert(all.take(base.len() as int) =~= base);
    while i < items.len()
        invariant
            all == base + items.deep_view(),
            i <= items@.len(),
            merged.deep_view() == without_repeats(all.take(base.len() + i)),
        decreases items@.len() - i,
    {
        let item = &items[i];
        assert(item@ == all[base.len() + i]);
        assert(all.take(base.len() + i + 1).drop_last() =~= all.take(base.len() + i));
        assert(all.take(base.len() + i + 1).last() == item@);
        let mut seen = false;
        let mut j: usize = 0;
        while j < merged.len()
            invariant
                j <= merged@.len(),
                seen == exists|k: int| 0 <= k < j && merged.deep_view()[k] == item@,
            decreases merged@.len() - j,
        {
            assert(merged.deep_view()[j as int] == merged@[j as int]@);
            if crate::text::str_eq(merged[j].as_str(), item.as_str()) {
                seen = true;
            }
            j = j + 1;
        }
        assert(seen == merged.deep_view().contains(item@));
        if !seen {
            let ghost before = merged.deep_view();
            merged.push(item.clone());
            assert(merged.deep_view() =~= before.push(item@)) by {
                assert(merged@[before.len() as int]@ == item@);
            }
        }
        i = i + 1;
    }
    assert(all.take(base.len() + i) =~= all);
}

/// The scopes of the stored and the incoming text, stored first, without
/// repeats, joined by commas; `None` where there are none.
/// The text of an optional text, empty where there is none.
pub open spec fn text_or_empty(s: Option<Seq<char>>) -> Seq<char> {
    match s {
        Some(x) => x,
        None => Seq::<char>::empty(),
    }
}

/// The scopes of `stored` then `incoming`, without repeats, joined by
/// commas; none where there are none.
pub open spec fn merged_scopes(stored: Option<Seq<char>>, incoming: Option<Seq<char>>) -> Option<Seq<char>> {
    let all = scope_list(text_or_empty(stored)) + scope_list(text_or_empty(incoming));
    if without_repeats(all).len() == 0 {
        None
    } else {
        Some(join_commas(without_repeats(all)))
    }
}

pub fn merge_scopes(stored: Option<&str>, incoming: Option<&str>) -> (r: Option<String>)
    ensures
        r.deep_view() == merged_scopes(
            match stored {
                Some(s) => Some(s@),
                None => None,
            },
            match incoming {
                Some(s) => Some(s@),
                None => None,
            },
        ),
        ({
            let all = scope_list(
                match stored {
                    Some(s) => s@,
                    None => Seq::<char>::empty(),
                },
            ) + scope_list(
                match incoming {
                    Some(s) => s@,
                    None => Seq::<char>::empty(),
                },
            );
            if without_repeats(all).len() == 0 {
                r is None
            } else {
                r matches Some(m) && m@ == join_commas(without_repeats(all))
            }
        }),
{
    let first = parse_scopes(stored);
    let second = parse_scopes(incoming);
    let mut merged: Vec<String> = Vec::new();
    assert(merged.deep_view() =~= without_repeats(Seq::<Seq<char>>::empty()));
    add_new_entries(&mut merged, &first, Ghost(Seq::empty()));
    assert(Seq::<Seq<char>>::empty() + first.deep_view() =~= first.deep_view());
    add_new_entries(&mut merged, &second, Ghost(first.deep_view()));
    if merged.len() == 0 {
        return None;
    }
    let mut joined: String = merged[0].clone();
    let mut k: usize = 1;
    assert(merged.deep_view().take(1) =~= seq![merged.deep_view()[0]]);
    assert(joined@ == merged@[0]@) by {
        assert(joined@ == merged@[0]@);
    }
    while k < merged.len()
        invariant
            1 <= k <= merged@.len(),
            joined@ == join_commas(merged.deep_view().take(k as int)),
        decreases merged@.len() - k,
    {
        let with_comma = crate::text::concat(joined.as_str(), ",");
        joined = crate::text::concat(with_comma.as_str(), merged[k].as_str());
        proof {
            reveal_strlit(",");
            let t = merged.deep_view().take(k + 1);
            assert(t.drop_last() =~= merged.deep_view().take(k as int));
            assert(t.last() == merged@[k as int]@);
            assert(joined@ =~= join_commas(t));
        }
        k = k + 1;
    }
    assert(merged.deep_view().take(k as int) =~= merged.deep_view());
    Some(joined)
}

/// Whether `s` holds no comma.
pub open spec fn comma_free(s: Seq<char>) -> bool {
    forall|i: int| 0 <= i < s.len() ==> s[i] != ','
}

/// A scope as a scope list holds it: not empty, without commas, and with no
/// white space to trim at either end.
pub open spec fn clean_scope(s: Seq<char>) -> bool {
    s.len() > 0 && comma_free(s) && trim(s) == s
}

proof fn lemma_trim_start_comma_free(s: Seq<char>)
    requires
        comma_free(s),
    ensures
        comma_free(trim_start(s)),
    decreases s.len(),
{
    if s.len() > 0 && unicode_whitespace(s[0]) {
        assert forall|i: int| 0 <= i < s.drop_first().len() implies s.drop_first()[i] != ',' by {
            assert(s.drop_first()[i] == s[i + 1]);
        }
        lemma_trim_start_comma_free(s.drop_first());
    }
}

proof fn lemma_trim_end_comma_free(s: Seq<char>)
    requires
        comma_free(s),
    ensures
        comma_free(trim_end(s)),
    decreases s.len(),
{
    if s.len() > 0 && unicode_whitespace(s.last()) {
        assert forall|i: int| 0 <= i < s.drop_last().len() implies s.drop_last()[i] != ',' by {
            assert(s.drop_last()[i] == s[i]);
        }
        lemma_trim_end_comma_free(s.drop_last());
    }
}

proof fn lemma_trim_start_first(s: Seq<char>)
    ensures
        trim_start(s).len() > 0 ==> !unicode_whitespace(trim_start(s)[0]),
    decreases s.len(),
{
    if s.len() > 0 && unicode_whitespace(s[0]) {
        lemma_trim_start_first(s.drop_first());
    }
}

proof fn lemma_trim_end_ends(s: Seq<char>)
    ensures
        trim_end(s).len() > 0 ==> !unicode_whitespace(trim_end(s).last()),
        trim_end(s).len() > 0 ==> trim_end(s)[0] == s[0],
        trim_end(s).len() <= s.len(),
    decreases s.len(),
{
    if s.len() > 0 && unicode_whitespace(s.last()) {
        lemma_trim_end_ends(s.drop_last());
    }
}

proof fn lemma_trim_idempotent(s: Seq<char>)
    ensures
        trim(trim(s)) == trim(s),
{
    let t = trim_start(s);
    let e = trim_end(t);
    lemma_trim_start_first(s);
    lemma_trim_end_ends(t);
    if e.len() > 0 {
        assert(trim_start(e) == e);
        assert(trim_end(e) == e);
    } else {
        assert(trim_start(e) == e);
        assert(trim_end(e) == e);
    }
}

proof fn lemma_trim_comma_free(s: Seq<char>)
    requires
        comma_free(s),
    ensures
        comma_free(trim(s)),
{
    lemma_trim_start_comma_free(s);
    lemma_trim_end_comma_free(trim_start(s));
}

proof fn lemma_split_pieces_comma_free(s: Seq<char>)
    ensures
        forall|i: int| 0 <= i < split_commas(s).len() ==> comma_free(#[trigger] split_commas(s)[i]),
    decreases s.len(),
{
    if s.len() > 0 {
        lemma_split_pieces_comma_free(s.drop_last());
        lemma_split_nonempty(s.drop_last());
        let pieces = split_commas(s.drop_last());
        if s.last() != ',' {
            let last = pieces.last().push(s.last());
            assert(comma_free(pieces[pieces.len() - 1]));
            assert forall|k: int| 0 <= k < last.len() implies last[k] != ',' by {
                if k < last.len() - 1 {
                    assert(last[k] == pieces.last()[k]);
                }
            }
            assert forall|i: int| 0 <= i < split_commas(s).len() implies comma_free(#[trigger] split_commas(s)[i]) by {
                if i < pieces.len() - 1 {
                    assert(split_commas(s)[i] == pieces[i]);
                }
            }
        } else {
            assert forall|i: int| 0 <= i < split_commas(s).len() implies comma_free(#[trigger] split_commas(s)[i]) by {
                if i < pieces.len() {
                    assert(split_commas(s)[i] == pieces[i]);
                }
            }
        }
    }
}

/// Every scope that a text lists is clean.
pub proof fn lemma_scope_list_clean(s: Seq<char>)
    ensures
        forall|i: int| 0 <= i < scope_list(s).len() ==> clean_scope(#[trigger] scope_list(s)[i]),
{
    let pred = |p: Seq<char>| p.len() > 0;
    let trimmed_pieces = split_commas(s).map_values(|p: Seq<char>| trim(p));
    lemma_split_pieces_comma_free(s);
    assert forall|i: int| 0 <= i < scope_list(s).len() implies clean_scope(#[trigger] scope_list(s)[i]) by {
        let e = scope_list(s)[i];
        trimmed_pieces.lemma_filter_pred(pred, i);
        assert(scope_list(s).contains(e));
        trimmed_pieces.lemma_filter_contains_rev(pred, e);
        let j = choose|j: int| 0 <= j < trimmed_pieces.len() && trimmed_pieces[j] == e;
        let p = split_commas(s)[j];
        assert(e == trim(p));
        lemma_trim_comma_free(p);
        lemma_trim_idempotent(p);
    }
}

proof fn lemma_split_comma_free(w: Seq<char>)
    requires
        comma_free(w),
    ensures
        split_commas(w) == seq![w],
    decreases w.len(),
{
    if w.len() > 0 {
        assert forall|i: int| 0 <= i < w.drop_last().len() implies w.drop_last()[i] != ',' by {
            assert(w.drop_last()[i] == w[i]);
        }
        lemma_split_comma_free(w.drop_last());
        assert(w.drop_last().push(w.last()) =~= w);
        assert(split_commas(w) =~= seq![w]);
    } else {
        assert(w =~= Seq::<char>::empty());
    }
}

proof fn lemma_split_at_comma(x: Seq<char>, b: Seq<char>)
    ensures
        split_commas(x + seq![','] + b) == split_commas(x) + split_commas(b),
    decreases b.len(),
{
    let whole = x + seq![','] + b;
    if b.len() == 0 {
        assert(whole.drop_last() =~= x);
        assert(split_commas(whole) =~= split_commas(x) + split_commas(b));
    } else {
        assert(whole.drop_last() =~= x + seq![','] + b.drop_last());
        lemma_split_at_comma(x, b.drop_last());
        lemma_split_nonempty(b.drop_last());
        lemma_split_nonempty(x);
        let left = split_commas(x);
        let right = split_commas(b.drop_last());
        assert(whole.last() == b.last());
        if b.last() == ',' {
            assert(split_commas(whole) =~= left + split_commas(b));
        } else {
            let pieces = left + right;
            assert(pieces.last() == right.last());
            assert(split_commas(whole) =~= left + split_commas(b));
        }
    }
}

proof fn lemma_split_join(w: Seq<Seq<char>>)
    requires
        w.len() > 0,
        forall|i: int| 0 <= i < w.len() ==> comma_free(#[trigger] w[i]),
    ensures
        split_commas(join_commas(w)) == w,
    decreases w.len(),
{
    if w.len() == 1 {
        lemma_split_comma_free(w[0]);
        assert(split_commas(join_commas(w)) =~= w);
    } else {
        let rest = w.drop_last();
        assert forall|i: int| 0 <= i < rest.len() implies comma_free(#[trigger] rest[i]) by {
            assert(rest[i] == w[i]);
        }
        lemma_split_join(rest);
        assert(comma_free(w[w.len() - 1]));
        lemma_split_comma_free(w.last());
        lemma_split_at_comma(join_commas(rest), w.last());
        assert(split_commas(join_commas(w)) =~= w);
    }
}

proof fn lemma_filter_keeps_all(s: Seq<Seq<char>>)
    requires
        forall|i: int| 0 <= i < s.len() ==> (#[trigger] s[i]).len() > 0,
    ensures
        s.filter(|p: Seq<char>| p.len() > 0) == s,
    decreases s.len(),
{
    reveal(Seq::filter);
    if s.len() > 0 {
        assert forall|i: int| 0 <= i < s.drop_last().len() implies (#[trigger] s.drop_last()[i]).len() > 0 by {
            assert(s.drop_last()[i] == s[i]);
        }
        lemma_filter_keeps_all(s.drop_last());
        assert(s.drop_last().push(s.last()) =~= s);
    }
}

/// A list of clean scopes joined by commas reads back as the same list.
pub proof fn lemma_scope_list_join(w: Seq<Seq<char>>)
    requires
        forall|i: int| 0 <= i < w.len() ==> clean_scope(#[trigger] w[i]),
    ensures
        scope_list(join_commas(w)) == w,
{
    if w.len() == 0 {
        reveal_with_fuel(Seq::filter, 2);
        let pieces = split_commas(join_commas(w)).map_values(|p: Seq<char>| trim(p));
        assert(join_commas(w) =~= Seq::<char>::empty());
        assert(pieces =~= seq![trim(Seq::<char>::empty())]);
        assert(trim(Seq::<char>::empty()) =~= Seq::<char>::empty());
        assert(pieces.drop_last() =~= Seq::<Seq<char>>::empty());
        assert(scope_list(join_commas(w)) =~= w);
    } else {
        assert forall|i: int| 0 <= i < w.len() implies comma_free(#[trigger] w[i]) by {
            assert(clean_scope(w[i]));
        }
        lemma_split_join(w);
        let pieces = split_commas(join_commas(w)).map_values(|p: Seq<char>| trim(p));
        assert forall|i: int| 0 <= i < w.len() implies #[trigger] pieces[i] == w[i] by {
            assert(clean_scope(w[i]));
        }
        assert(pieces =~= w);
        assert forall|i: int| 0 <= i < w.len() implies (#[trigger] w[i]).len() > 0 by {
            assert(clean_scope(w[i]));
        }
        lemma_filter_keeps_all(w);
    }
}

proof fn lemma_without_repeats_from(s: Seq<Seq<char>>, x: Seq<char>)
    requires
        without_repeats(s).contains(x),
    ensures
        s.contains(x),
    decreases s.len(),
{
    if s.len() > 0 {
        let kept = without_repeats(s.drop_last());
        if kept.contains(x) {
            lemma_without_repeats_from(s.drop_last(), x);
            let i = choose|i: int| 0 <= i < s.drop_last().len() && s.drop_last()[i] == x;
            assert(s[i] == x);
        } else {
            assert(x == s.last());
            assert(s[s.len() - 1] == x);
        }
    }
}

/// The merged scope text reads back as the merged list: the scopes of the
/// stored text, then those of the incoming text, without repeats.
pub proof fn law_merged_scopes_read_back(stored: Option<Seq<char>>, incoming: Option<Seq<char>>)
    ensures
        scope_list(text_or_empty(merged_scopes(stored, incoming))) == without_repeats(
            scope_list(text_or_empty(stored)) + scope_list(text_or_empty(incoming)),
        ),
{
    let a = scope_list(text_or_empty(stored));
    let b = scope_list(text_or_empty(incoming));
    let all = a + b;
    let w = without_repeats(all);
    lemma_scope_list_clean(text_or_empty(stored));
    lemma_scope_list_clean(text_or_empty(incoming));
    assert forall|i: int| 0 <= i < w.len() implies clean_scope(#[trigger] w[i]) by {
        assert(w.contains(w[i]));
        lemma_without_repeats_from(all, w[i]);
        let j = choose|j: int| 0 <= j < all.len() && all[j] == w[i];
        if j < a.len() {
            assert(all[j] == a[j]);
        } else {
            assert(all[j] == b[j - a.len()]);
        }
    }
    lemma_scope_list_join(w);
    if w.len() == 0 {
        lemma_scope_list_join(Seq::<Seq<char>>::empty());
        assert(join_commas(Seq::<Seq<char>>::empty()) =~= Seq::<char>::empty());
    }
}

/// `acc` followed by the entries of `s` that are not already there, each
/// once, in order.
pub open spec fn extend_new(acc: Seq<Seq<char>>, s: Seq<Seq<char>>) -> Seq<Seq<char>>
    decreases s.len(),
{
    if s.len() == 0 {
        acc
    } else {
        let kept = extend_new(acc, s.drop_last());
        if kept.contains(s.last()) {
            kept
        } else {
            kept.push(s.last())
        }
    }
}

/// Whether no entry of `s` occurs twice.
pub open spec fn distinct(s: Seq<Seq<char>>) -> bool {
    forall|i: int, j: int| 0 <= i < j < s.len() ==> s[i] != s[j]
}

proof fn lemma_without_repeats_extends(s: Seq<Seq<char>>)
    ensures
        without_repeats(s) == extend_new(Seq::empty(), s),
    decreases s.len(),
{
    if s.len() > 0 {
        lemma_without_repeats_extends(s.drop_last());
    }
}

proof fn lemma_extend_concat(acc: Seq<Seq<char>>, x: Seq<Seq<char>>, z: Seq<Seq<char>>)
    ensures
        extend_new(acc, x + z) == extend_new(extend_new(acc, x), z),
    decreases z.len(),
{
    if z.len() == 0 {
        assert(x + z =~= x);
    } else {
        assert((x + z).drop_last() =~= x + z.drop_last());
        assert((x + z).last() == z.last());
        lemma_extend_concat(acc, x, z.drop_last());
    }
}

proof fn lemma_extend_prefix(acc: Seq<Seq<char>>, s: Seq<Seq<char>>)
    ensures
        extend_new(acc, s).len() >= acc.len(),
        extend_new(acc, s).take(acc.len() as int) == acc,
    decreases s.len(),
{
    if s.len() > 0 {
        lemma_extend_prefix(acc, s.drop_last());
        let kept = extend_new(acc, s.drop_last());
        if !kept.contains(s.last()) {
            assert(kept.push(s.last()).take(acc.len() as int) =~= kept.take(acc.len() as int));
        }
    }
}

proof fn lemma_extend_distinct(acc: Seq<Seq<char>>, s: Seq<Seq<char>>)
    requires
        distinct(acc),
    ensures
        distinct(extend_new(acc, s)),
    decreases s.len(),
{
    if s.len() > 0 {
        lemma_extend_distinct(acc, s.drop_last());
        let kept = extend_new(acc, s.drop_last());
        if !kept.contains(s.last()) {
            let r = kept.push(s.last());
            assert forall|i: int, j: int| 0 <= i < j < r.len() implies r[i] != r[j] by {
                if j == r.len() - 1 {
                    assert(r[i] == kept[i]);
                }
            }
        }
    }
}

proof fn lemma_extend_known(acc: Seq<Seq<char>>, s: Seq<Seq<char>>)
    requires
        forall|i: int| 0 <= i < s.len() ==> acc.contains(#[trigger] s[i]),
    ensures
        extend_new(acc, s) == acc,
    decreases s.len(),
{
    if s.len() > 0 {
        assert forall|i: int| 0 <= i < s.drop_last().len() implies acc.contains(#[trigger] s.drop_last()[i]) by {
            assert(s.drop_last()[i] == s[i]);
        }
        lemma_extend_known(acc, s.drop_last());
        assert(acc.contains(s[s.len() - 1]));
    }
}

proof fn lemma_extend_own_prefix(acc: Seq<Seq<char>>, z: Seq<Seq<char>>)
    requires
        distinct(z),
        acc.len() <= z.len(),
        z.take(acc.len() as int) == acc,
    ensures
        extend_new(acc, z) == z,
    decreases z.len(),
{
    if z.len() == acc.len() {
        assert(z =~= acc);
        assert forall|i: int| 0 <= i < z.len() implies acc.contains(#[trigger] z[i]) by {
            assert(acc[i] == z[i]);
        }
        lemma_extend_known(acc, z);
    } else {
        let rest = z.drop_last();
        assert(rest.take(acc.len() as int) =~= z.take(acc.len() as int));
        lemma_extend_own_prefix(acc, rest);
        if rest.contains(z.last()) {
            let i = choose|i: int| 0 <= i < rest.len() && rest[i] == z.last();
            assert(z[i] == z[z.len() - 1]);
        }
        assert(rest.push(z.last()) =~= z);
    }
}

proof fn lemma_without_repeats_empty(s: Seq<Seq<char>>)
    ensures
        without_repeats(s).len() == 0 ==> s.len() == 0,
    decreases s.len(),
{
    if s.len() > 0 {
        let kept = without_repeats(s.drop_last());
        if kept.contains(s.last()) {
            assert(kept.len() > 0);
        }
    }
}

/// Merging the same stored scopes into a merge of them changes nothing:
/// relinking an account twice against one previous link keeps the scopes of
/// the first relink.
pub proof fn law_merge_scopes_idempotent(stored: Option<Seq<char>>, incoming: Option<Seq<char>>)
    ensures
        merged_scopes(stored, merged_scopes(stored, incoming)) == merged_scopes(stored, incoming),
{
    let x = scope_list(text_or_empty(stored));
    let y = scope_list(text_or_empty(incoming));
    let w = without_repeats(x + y);
    law_merged_scopes_read_back(stored, incoming);
    let again = scope_list(text_or_empty(merged_scopes(stored, incoming)));
    assert(again == w);
    lemma_without_repeats_extends(x + y);
    lemma_without_repeats_extends(x + w);
    lemma_without_repeats_extends(x);
    let wx = extend_new(Seq::empty(), x);
    lemma_extend_concat(Seq::empty(), x, y);
    lemma_extend_concat(Seq::empty(), x, w);
    lemma_extend_prefix(wx, y);
    assert(distinct(Seq::<Seq<char>>::empty()));
    lemma_extend_distinct(Seq::empty(), x + y);
    lemma_extend_own_prefix(wx, w);
    assert(without_repeats(x + w) == w);
    if w.len() == 0 {
        lemma_without_repeats_empty(x + y);
        assert(x + w =~= x);
    }
}

} // verus!
