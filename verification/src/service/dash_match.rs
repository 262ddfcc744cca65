//! The where clause of the dashboard's data adapter over records that the
//! store lists itself (accounts and sessions): which records it keeps.

use crate::keyed::Keyed;
use crate::service::dash_query::DashAdapterOperator;
use crate::text::{compare_str, lex_order, str_eq, to_chars, Precedence};
use vstd::prelude::*;

verus! {

/// A JSON value as the where clause compares it.
#[derive(Clone, Debug)]
pub enum DashValue {
    /// A string.
    Text(String),
    /// A whole number that an `i64` holds.
    Integer(i64),
    /// Any other number, by its JSON text.
    Number(String),
    /// `null`, a boolean, an array or an object, by its JSON text.
    Json(String),
}

/// A JSON value, by value.
pub enum DashValueView {
    Text(Seq<char>),
    Integer(i64),
    Number(Seq<char>),
    Json(Seq<char>),
}

impl DeepView for DashValue {
    type V = DashValueView;

    open spec fn deep_view(&self) -> DashValueView {
        match self {
            DashValue::Text(s) => DashValueView::Text(s@),
            DashValue::Integer(n) => DashValueView::Integer(*n),
            DashValue::Number(s) => DashValueView::Number(s@),
            DashValue::Json(s) => DashValueView::Json(s@),
        }
    }
}

/// One condition of a where clause: the field, the comparison, the value
/// compared with, and that value's elements where it is an array.
#[derive(Clone, Debug)]
pub struct DashMatchCondition {
    pub field: String,
    pub operator: DashAdapterOperator,
    pub value: DashValue,
    pub items: Option<Vec<DashValue>>,
}

/// The JSON `null`, which a missing field reads as.
pub open spec fn null_view() -> DashValueView {
    DashValueView::Json("null"@)
}

/// The value of the first field of `record` named `name`.
pub open spec fn field_of(record: Seq<(Seq<char>, DashValueView)>, name: Seq<char>) -> Option<DashValueView>
    decreases record.len(),
{
    if record.len() == 0 {
        None
    } else if record[0].0 == name {
        Some(record[0].1)
    } else {
        field_of(record.drop_first(), name)
    }
}

/// The value that a condition on `name` reads from `record`: the field's
/// value, or `null` where the record has no such field.
pub open spec fn candidate(record: Seq<(Seq<char>, DashValueView)>, name: Seq<char>) -> DashValueView {
    match field_of(record, name) {
        Some(v) => v,
        None => null_view(),
    }
}

pub open spec fn is_number(v: DashValueView) -> bool {
    v is Integer || v is Number
}

pub open spec fn is_ordering(op: DashAdapterOperator) -> bool {
    op == DashAdapterOperator::Gt || op == DashAdapterOperator::Gte || op == DashAdapterOperator::Lt || op
        == DashAdapterOperator::Lte
}

/// Whether `op` compares two numbers; such a comparison is made in floating
/// point, outside this library.
pub open spec fn numeric_ordering(c: DashValueView, op: DashAdapterOperator, v: DashValueView) -> bool {
    is_ordering(op) && is_number(c) && is_number(v)
}

/// Whether `b` occurs in `a`.
pub open spec fn has_infix(a: Seq<char>, b: Seq<char>) -> bool {
    exists|i: int| 0 <= i && i + b.len() <= a.len() && #[trigger] a.subrange(i, i + b.len()) == b
}

/// Whether `a` starts with `b`.
pub open spec fn has_prefix(a: Seq<char>, b: Seq<char>) -> bool {
    b.len() <= a.len() && a.subrange(0, b.len() as int) == b
}

/// Whether `a` ends with `b`.
pub open spec fn has_suffix(a: Seq<char>, b: Seq<char>) -> bool {
    b.len() <= a.len() && a.subrange(a.len() - b.len(), a.len() as int) == b
}

/// How an ordering comparison reads a three-way comparison.
pub open spec fn ordered(op: DashAdapterOperator, p: Precedence) -> bool {
    match op {
        DashAdapterOperator::Gt => p == Precedence::After,
        DashAdapterOperator::Gte => p != Precedence::Before,
        DashAdapterOperator::Lt => p == Precedence::Before,
        DashAdapterOperator::Lte => p != Precedence::After,
        _ => false,
    }
}

/// Whether the record value `c` meets the comparison `op` with `v` (whose
/// elements are `items` where it is an array). Equal values are the same
/// JSON value; the text comparisons hold of two strings only; an ordering
/// holds of two strings in string order, is left to the caller for two
/// numbers, and fails otherwise.
pub open spec fn holds(
    c: DashValueView,
    op: DashAdapterOperator,
    v: DashValueView,
    items: Option<Seq<DashValueView>>,
) -> bool {
    match op {
        DashAdapterOperator::Eq => c == v,
        DashAdapterOperator::Ne => c != v,
        DashAdapterOperator::In => items matches Some(list) && list.contains(c),
        DashAdapterOperator::Contains => c matches DashValueView::Text(a) && v matches DashValueView::Text(b)
            && has_infix(a, b),
        DashAdapterOperator::StartsWith => c matches DashValueView::Text(a) && v matches DashValueView::Text(b)
            && has_prefix(a, b),
        DashAdapterOperator::EndsWith => c matches DashValueView::Text(a) && v matches DashValueView::Text(b)
            && has_suffix(a, b),
        _ => if c is Text && v is Text {
            ordered(op, lex_order(c->Text_0, v->Text_0))
        } else {
            is_number(c) && is_number(v)
        },
    }
}

pub open spec fn items_view(items: Option<Vec<DashValue>>) -> Option<Seq<DashValueView>> {
    match items {
        Some(v) => Some(v.deep_view()),
        None => None,
    }
}

/// Whether condition `k` holds of `record`.
pub open spec fn condition_holds(record: Seq<(Seq<char>, DashValueView)>, k: DashMatchCondition) -> bool {
    holds(candidate(record, k.field@), k.operator, k.value.deep_view(), items_view(k.items))
}

/// Whether every condition holds of `record`.
pub open spec fn record_matches(record: Seq<(Seq<char>, DashValueView)>, conditions: Seq<DashMatchCondition>) -> bool {
    forall|j: int| 0 <= j < conditions.len() ==> condition_holds(record, #[trigger] conditions[j])
}

fn value_eq(a: &DashValue, b: &DashValue) -> (r: bool)
    ensures
        r == (a.deep_view() == b.deep_view()),
{
    match (a, b) {
        (DashValue::Text(x), DashValue::Text(y)) => str_eq(x.as_str(), y.as_str()),
        (DashValue::Integer(x), DashValue::Integer(y)) => *x == *y,
        (DashValue::Number(x), DashValue::Number(y)) => str_eq(x.as_str(), y.as_str()),
        (DashValue::Json(x), DashValue::Json(y)) => str_eq(x.as_str(), y.as_str()),
        _ => false,
    }
}

fn field_value<'a>(record: &'a Vec<Keyed<DashValue>>, name: &str) -> (r: Option<&'a DashValue>)
    ensures
        match r {
            Some(v) => field_of(record.deep_view(), name@) == Some(v.deep_view()),
            None => field_of(record.deep_view(), name@) is None,
        },
{
    let ghost all = record.deep_view();
    let mut i: usize = 0;
    assert(all.skip(0) =~= all);
    while i < record.len()
        invariant
            all == record.deep_view(),
            i <= record@.len(),
            field_of(all, name@) == field_of(all.skip(i as int), name@),
        decreases record@.len() - i,
    {
        assert(all.skip(i as int)[0] == all[i as int]);
        if str_eq(record[i].key.as_str(), name) {
            return Some(&record[i].value);
        }
        assert(all.skip(i as int).drop_first() =~= all.skip(i + 1));
        i = i + 1;
    }
    assert(all.skip(i as int).len() == 0);
    None
}

fn infix_at(a: &Vec<char>, b: &Vec<char>, i: usize) -> (r: bool)
    requires
        i + b@.len() <= a@.len(),
    ensures
        r == (a@.subrange(i as int, i + b@.len()) == b@),
{
    let n = a.len();
    let mut k: usize = 0;
    while k < b.len()
        invariant
            n == a@.len(),
            i + b@.len() <= a@.len(),
            k <= b@.len(),
            forall|m: int| 0 <= m < k ==> a@[i + m] == b@[m],
        decreases b@.len() - k,
    {
        assert(i + k < a@.len());
        let at = i + k;
        if a[at] != b[k] {
            assert(a@.subrange(i as int, i + b@.len())[k as int] != b@[k as int]);
            return false;
        }
        k = k + 1;
    }
    assert(a@.subrange(i as int, i + b@.len()) =~= b@);
    true
}

fn text_holds(op: DashAdapterOperator, a: &str, b: &str) -> (r: bool)
    requires
        op == DashAdapterOperator::Contains || op == DashAdapterOperator::StartsWith || op
            == DashAdapterOperator::EndsWith,
    ensures
        op == DashAdapterOperator::Contains ==> r == has_infix(a@, b@),
        op == DashAdapterOperator::StartsWith ==> r == has_prefix(a@, b@),
        op == DashAdapterOperator::EndsWith ==> r == has_suffix(a@, b@),
{
    let av = to_chars(a);
    let bv = to_chars(b);
    if bv.len() > av.len() {
        return false;
    }
    match op {
        DashAdapterOperator::StartsWith => infix_at(&av, &bv, 0),
        DashAdapterOperator::EndsWith => infix_at(&av, &bv, av.len() - bv.len()),
        _ => {
            assert(op == DashAdapterOperator::Contains);
            let last = av.len() - bv.len();
            let mut i: usize = 0;
            while i < last
                invariant
                    op == DashAdapterOperator::Contains,
                    last == av@.len() - bv@.len(),
                    av@ == a@,
                    bv@ == b@,
                    i <= last,
                    forall|m: int| 0 <= m < i ==> #[trigger] a@.subrange(m, m + b@.len()) != b@,
                decreases last - i,
            {
                if infix_at(&av, &bv, i) {
                    return true;
                }
                i = i + 1;
            }
            infix_at(&av, &bv, last)
        },
    }
}

fn in_items(items: &Option<Vec<DashValue>>, c: &DashValue) -> (r: bool)
    ensures
        r == (items_view(*items) matches Some(list) && list.contains(c.deep_view())),
{
    match items {
        None => false,
        Some(list) => {
            assert(items_view(*items) == Some(list.deep_view()));
            let mut i: usize = 0;
            while i < list.len()
                invariant
                    items_view(*items) == Some(list.deep_view()),
                    i <= list@.len(),
                    forall|m: int| 0 <= m < i ==> list.deep_view()[m] != c.deep_view(),
                decreases list@.len() - i,
            {
                if value_eq(&list[i], c) {
                    assert(list.deep_view()[i as int] == c.deep_view());
                    return true;
                }
                i = i + 1;
            }
            false
        },
    }
}

fn is_number_value(v: &DashValue) -> (r: bool)
    ensures
        r == is_number(v.deep_view()),
{
    match v {
        DashValue::Integer(_) => true,
        DashValue::Number(_) => true,
        _ => false,
    }
}

/// Whether the value `c` read from a record meets condition `k`.
pub fn condition_met(c: &DashValue, k: &DashMatchCondition) -> (r: bool)
    ensures
        r == holds(c.deep_view(), k.operator, k.value.deep_view(), items_view(k.items)),
{
    match k.operator {
        DashAdapterOperator::Eq => value_eq(c, &k.value),
        DashAdapterOperator::Ne => !value_eq(c, &k.value),
        DashAdapterOperator::In => in_items(&k.items, c),
        DashAdapterOperator::Contains | DashAdapterOperator::StartsWith | DashAdapterOperator::EndsWith => {
            match (c, &k.value) {
                (DashValue::Text(a), DashValue::Text(b)) => text_holds(k.operator, a.as_str(), b.as_str()),
                _ => false,
            }
        },
        _ => match (c, &k.value) {
            (DashValue::Text(a), DashValue::Text(b)) => {
                let p = compare_str(a.as_str(), b.as_str());
                match k.operator {
                    DashAdapterOperator::Gt => p == Precedence::After,
                    DashAdapterOperator::Gte => p != Precedence::Before,
                    DashAdapterOperator::Lt => p == Precedence::Before,
                    _ => p != Precedence::After,
                }
            },
            _ => is_number_value(c) && is_number_value(&k.value),
        },
    }
}

/// Whether every condition holds of `record`.
pub fn matches_record(record: &Vec<Keyed<DashValue>>, conditions: &Vec<DashMatchCondition>) -> (r: bool)
    ensures
        r == record_matches(record.deep_view(), conditions@),
{
    let null = DashValue::Json(crate::text::owned("null"));
    proof {
        reveal_strlit("null");
    }
    let mut j: usize = 0;
    while j < conditions.len()
        invariant
            j <= conditions@.len(),
            null.deep_view() == null_view(),
            forall|m: int| 0 <= m < j ==> condition_holds(record.deep_view(), #[trigger] conditions@[m]),
        decreases conditions@.len() - j,
    {
        let k = &conditions[j];
        let c = match field_value(record, k.field.as_str()) {
            Some(v) => v,
            None => &null,
        };
        if !condition_met(c, k) {
            assert(!condition_holds(record.deep_view(), conditions@[j as int]));
            return false;
        }
        j = j + 1;
    }
    true
}

/// The records that meet every condition, in order. A comparison between
/// two numbers is taken to hold here; the caller compares those in floating
/// point.
pub fn matching_records(records: Vec<Vec<Keyed<DashValue>>>, conditions: &Vec<DashMatchCondition>) -> (r: Vec<
    Vec<Keyed<DashValue>>,
>)
    ensures
        r.deep_view() == records.deep_view().filter(
            |rec: Seq<(Seq<char>, DashValueView)>| record_matches(rec, conditions@),
        ),
{
    let ghost all = records.deep_view();
    let ghost pred = |rec: Seq<(Seq<char>, DashValueView)>| record_matches(rec, conditions@);
    let mut kept: Vec<Vec<Keyed<DashValue>>> = Vec::new();
    let mut rest = records;
    proof {
        reveal(Seq::filter);
        assert(all.take(0) =~= Seq::<Seq<(Seq<char>, DashValueView)>>::empty());
        assert(all.skip(0) =~= all);
    }
    let n = rest.len();
    let mut i: usize = 0;
    while i < n
        invariant
            n == all.len(),
            i <= n,
            rest.deep_view() == all.skip(i as int),
            kept.deep_view() == all.take(i as int).filter(pred),
            pred == (|rec: Seq<(Seq<char>, DashValueView)>| record_matches(rec, conditions@)),
        decreases n - i,
    {
        proof {
            reveal(Seq::filter);
        }
        let ghost before = rest@;
        assert(rest.deep_view().len() == rest@.len());
        let rec = rest.remove(0);
        proof {
            assert(all.skip(i as int)[0] == before[0].deep_view());
            assert(rec.deep_view() == all[i as int]);
            assert(all.take(i + 1).drop_last() =~= all.take(i as int));
            assert(all.take(i + 1).last() == all[i as int]);
            assert forall|m: int| 0 <= m < rest@.len() implies rest.deep_view()[m] == all.skip(i + 1)[m] by {
                assert(rest@[m] == before[m + 1]);
                assert(all.skip(i as int)[m + 1] == before[m + 1].deep_view());
            }
            assert(rest.deep_view() =~= all.skip(i + 1));
        }
        if matches_record(&rec, conditions) {
            let ghost k0 = kept.deep_view();
            kept.push(rec);
            proof {
                assert(kept.deep_view() =~= k0.push(all[i as int]));
            }
        }
        i = i + 1;
    }
    proof {
        assert(all.take(n as int) =~= all);
    }
    kept
}

} // verus!
