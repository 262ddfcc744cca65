//! The query rules of the dashboard's data adapter: the comparison
//! operators that a where clause may name, the equality filter that a model
//! without its own query support needs, and the projection of records onto
//! selected fields.

use crate::keyed::Keyed;
use crate::text::{concat, owned, str_eq};
use vstd::prelude::*;

verus! {

/// A comparison in a user listing condition.
#[derive(Clone, Copy, Debug, PartialEq, Eq, Structural)]
pub enum AdminListOperator {
    Eq,
    Ne,
    Lt,
    Lte,
    Gt,
    Gte,
    In,
    NotIn,
    Contains,
    StartsWith,
    EndsWith,
}

/// A comparison that the dashboard's adapter protocol names.
#[derive(Clone, Copy, Debug, PartialEq, Eq, Structural)]
pub enum DashAdapterOperator {
    Eq,
    Ne,
    Gt,
    Gte,
    Lt,
    Lte,
    In,
    Contains,
    StartsWith,
    EndsWith,
}

/// The operator that a where clause names; `eq` where it names none, and
/// none where the name is unknown.
pub open spec fn operator_named(name: Option<Seq<char>>) -> Option<AdminListOperator> {
    match name {
        None => Some(AdminListOperator::Eq),
        Some(n) => if n == "eq"@ {
            Some(AdminListOperator::Eq)
        } else if n == "ne"@ {
            Some(AdminListOperator::Ne)
        } else if n == "lt"@ {
            Some(AdminListOperator::Lt)
        } else if n == "lte"@ {
            Some(AdminListOperator::Lte)
        } else if n == "gt"@ {
            Some(AdminListOperator::Gt)
        } else if n == "gte"@ {
            Some(AdminListOperator::Gte)
        } else if n == "in"@ {
            Some(AdminListOperator::In)
        } else if n == "not_in"@ {
            Some(AdminListOperator::NotIn)
        } else if n == "contains"@ {
            Some(AdminListOperator::Contains)
        } else if n == "starts_with"@ {
            Some(AdminListOperator::StartsWith)
        } else if n == "ends_with"@ {
            Some(AdminListOperator::EndsWith)
        } else {
            None
        },
    }
}

/// The name by which a where clause writes each listing operator.
pub open spec fn operator_name(op: AdminListOperator) -> Seq<char> {
    match op {
        AdminListOperator::Eq => seq!['e', 'q'],
        AdminListOperator::Ne => seq!['n', 'e'],
        AdminListOperator::Lt => seq!['l', 't'],
        AdminListOperator::Lte => seq!['l', 't', 'e'],
        AdminListOperator::Gt => seq!['g', 't'],
        AdminListOperator::Gte => seq!['g', 't', 'e'],
        AdminListOperator::In => seq!['i', 'n'],
        AdminListOperator::NotIn => seq!['n', 'o', 't', '_', 'i', 'n'],
        AdminListOperator::Contains => seq!['c', 'o', 'n', 't', 'a', 'i', 'n', 's'],
        AdminListOperator::StartsWith => seq!['s', 't', 'a', 'r', 't', 's', '_', 'w', 'i', 't', 'h'],
        AdminListOperator::EndsWith => seq!['e', 'n', 'd', 's', '_', 'w', 'i', 't', 'h'],
    }
}

/// Every listing operator is read back from its own name, a clause without
/// an operator compares for equality, and no two names read as the same
/// operator.
pub proof fn law_operator_names_read_back(op: AdminListOperator, a: Seq<char>, b: Seq<char>)
    ensures
        operator_named(Some(operator_name(op))) == Some(op),
        operator_named(None) == Some(AdminListOperator::Eq),
        operator_named(Some(a)) is Some && operator_named(Some(a)) == operator_named(Some(b)) ==> a == b,
{
    reveal_strlit("eq");
    reveal_strlit("ne");
    reveal_strlit("lt");
    reveal_strlit("lte");
    reveal_strlit("gt");
    reveal_strlit("gte");
    reveal_strlit("in");
    reveal_strlit("not_in");
    reveal_strlit("contains");
    reveal_strlit("starts_with");
    reveal_strlit("ends_with");
    let n = operator_name(op);
    assert(n =~= match op {
        AdminListOperator::Eq => "eq"@,
        AdminListOperator::Ne => "ne"@,
        AdminListOperator::Lt => "lt"@,
        AdminListOperator::Lte => "lte"@,
        AdminListOperator::Gt => "gt"@,
        AdminListOperator::Gte => "gte"@,
        AdminListOperator::In => "in"@,
        AdminListOperator::NotIn => "not_in"@,
        AdminListOperator::Contains => "contains"@,
        AdminListOperator::StartsWith => "starts_with"@,
        AdminListOperator::EndsWith => "ends_with"@,
    });
    assert("eq"@[0] != "ne"@[0] && "eq"@[0] != "lt"@[0] && "eq"@[0] != "gt"@[0] && "eq"@[0] != "in"@[0]);
    assert("ne"@[0] != "lt"@[0] && "ne"@[0] != "gt"@[0] && "ne"@[0] != "in"@[0] && "ne"@[0] != "contains"@[0]);
    assert("ne"@.len() != "not_in"@.len() && "ne"@[0] != "starts_with"@[0] && "ne"@[0] != "ends_with"@[0]);
    assert("eq"@[1] != "ends_with"@[1] && "eq"@.len() != "lte"@.len() && "eq"@.len() != "gte"@.len());
    assert("lt"@.len() != "lte"@.len() && "lt"@[0] != "gt"@[0] && "lte"@[0] != "gte"@[0]);
    assert("gt"@.len() != "gte"@.len());
}

/// The operator that a where clause names, if it is a known one.
pub fn list_operator(name: Option<&str>) -> (r: Option<AdminListOperator>)
    ensures
        r == operator_named(
            match name {
                Some(n) => Some(n@),
                None => None,
            },
        ),
{
    let n = match name {
        None => return Some(AdminListOperator::Eq),
        Some(n) => n,
    };
    if str_eq(n, "eq") {
        Some(AdminListOperator::Eq)
    } else if str_eq(n, "ne") {
        Some(AdminListOperator::Ne)
    } else if str_eq(n, "lt") {
        Some(AdminListOperator::Lt)
    } else if str_eq(n, "lte") {
        Some(AdminListOperator::Lte)
    } else if str_eq(n, "gt") {
        Some(AdminListOperator::Gt)
    } else if str_eq(n, "gte") {
        Some(AdminListOperator::Gte)
    } else if str_eq(n, "in") {
        Some(AdminListOperator::In)
    } else if str_eq(n, "not_in") {
        Some(AdminListOperator::NotIn)
    } else if str_eq(n, "contains") {
        Some(AdminListOperator::Contains)
    } else if str_eq(n, "starts_with") {
        Some(AdminListOperator::StartsWith)
    } else if str_eq(n, "ends_with") {
        Some(AdminListOperator::EndsWith)
    } else {
        None
    }
}

/// The listing operator of an adapter operator: the same comparison.
pub open spec fn listing_operator(op: DashAdapterOperator) -> AdminListOperator {
    match op {
        DashAdapterOperator::Eq => AdminListOperator::Eq,
        DashAdapterOperator::Ne => AdminListOperator::Ne,
        DashAdapterOperator::Gt => AdminListOperator::Gt,
        DashAdapterOperator::Gte => AdminListOperator::Gte,
        DashAdapterOperator::Lt => AdminListOperator::Lt,
        DashAdapterOperator::Lte => AdminListOperator::Lte,
        DashAdapterOperator::In => AdminListOperator::In,
        DashAdapterOperator::Contains => AdminListOperator::Contains,
        DashAdapterOperator::StartsWith => AdminListOperator::StartsWith,
        DashAdapterOperator::EndsWith => AdminListOperator::EndsWith,
    }
}

/// The name by which the adapter protocol writes each of its operators.
pub open spec fn adapter_operator_name(op: DashAdapterOperator) -> Seq<char> {
    match op {
        DashAdapterOperator::Eq => seq!['e', 'q'],
        DashAdapterOperator::Ne => seq!['n', 'e'],
        DashAdapterOperator::Gt => seq!['g', 't'],
        DashAdapterOperator::Gte => seq!['g', 't', 'e'],
        DashAdapterOperator::Lt => seq!['l', 't'],
        DashAdapterOperator::Lte => seq!['l', 't', 'e'],
        DashAdapterOperator::In => seq!['i', 'n'],
        DashAdapterOperator::Contains => seq!['c', 'o', 'n', 't', 'a', 'i', 'n', 's'],
        DashAdapterOperator::StartsWith => seq!['s', 't', 'a', 'r', 't', 's', '_', 'w', 'i', 't', 'h'],
        DashAdapterOperator::EndsWith => seq!['e', 'n', 'd', 's', '_', 'w', 'i', 't', 'h'],
    }
}

/// An adapter operator becomes the listing operator of the same name, so
/// the listing makes the same comparison.
pub proof fn law_adapter_operators_keep_their_comparison(op: DashAdapterOperator)
    ensures
        operator_name(listing_operator(op)) == adapter_operator_name(op),
{
}

/// The listing operator of an adapter operator.
pub fn adapter_condition_operator(op: DashAdapterOperator) -> (r: AdminListOperator)
    ensures
        r == listing_operator(op),
{
    match op {
        DashAdapterOperator::Eq => AdminListOperator::Eq,
        DashAdapterOperator::Ne => AdminListOperator::Ne,
        DashAdapterOperator::Gt => AdminListOperator::Gt,
        DashAdapterOperator::Gte => AdminListOperator::Gte,
        DashAdapterOperator::Lt => AdminListOperator::Lt,
        DashAdapterOperator::Lte => AdminListOperator::Lte,
        DashAdapterOperator::In => AdminListOperator::In,
        DashAdapterOperator::Contains => AdminListOperator::Contains,
        DashAdapterOperator::StartsWith => AdminListOperator::StartsWith,
        DashAdapterOperator::EndsWith => AdminListOperator::EndsWith,
    }
}

/// A condition of an adapter query, with its value where that value is a
/// JSON string.
pub struct DashAdapterCondition {
    pub field: String,
    pub operator: DashAdapterOperator,
    pub string_value: Option<String>,
}

/// Whether the condition at `i` is an equality on `field`.
pub open spec fn equality_on(conditions: Seq<DashAdapterCondition>, i: int, field: Seq<char>) -> bool {
    conditions[i].field@ == field && conditions[i].operator == DashAdapterOperator::Eq
}

/// The string that the first equality condition on `field` compares with;
/// none where there is no such condition or its value is not a string.
pub open spec fn equality_value(conditions: Seq<DashAdapterCondition>, field: Seq<char>) -> Option<Seq<char>> {
    if exists|i: int| 0 <= i < conditions.len() && #[trigger] equality_on(conditions, i, field) {
        let i = choose|i: int|
            0 <= i < conditions.len() && #[trigger] equality_on(conditions, i, field) && forall|j: int|
                0 <= j < i ==> !#[trigger] equality_on(conditions, j, field);
        conditions[i].string_value.deep_view()
    } else {
        None
    }
}

/// The string that the first equality condition on `field` compares with,
/// which a model without its own query support needs.
pub fn equality_filter(conditions: &Vec<DashAdapterCondition>, field: &str) -> (r: Option<String>)
    ensures
        r.deep_view() == equality_value(conditions@, field@),
{
    let mut i: usize = 0;
    while i < conditions.len()
        invariant
            i <= conditions@.len(),
            forall|j: int| 0 <= j < i ==> !#[trigger] equality_on(conditions@, j, field@),
        decreases conditions@.len() - i,
    {
        if str_eq(conditions[i].field.as_str(), field) && conditions[i].operator == DashAdapterOperator::Eq {
            proof {
                assert(equality_on(conditions@, i as int, field@));
                let k = choose|k: int|
                    0 <= k < conditions@.len() && #[trigger] equality_on(conditions@, k, field@) && forall|j: int|
                        0 <= j < k ==> !#[trigger] equality_on(conditions@, j, field@);
                if k < i {
                    assert(!equality_on(conditions@, k, field@));
                }
                if k > i {
                    assert(!equality_on(conditions@, i as int, field@));
                }
            }
            return match &conditions[i].string_value {
                Some(s) => Some(owned(s.as_str())),
                None => None,
            };
        }
        i = i + 1;
    }
    None
}

/// Whether `name` is among the selected fields.
pub open spec fn selected(select: Seq<String>, name: Seq<char>) -> bool {
    exists|i: int| 0 <= i < select.len() && (#[trigger] select[i])@ == name
}

/// The fields of a record that a selection keeps: all of them where there is
/// no selection, else those whose name is selected, in order.
pub open spec fn projected_fields<V>(fields: Seq<Keyed<V>>, select: Option<Seq<String>>) -> Seq<Keyed<V>> {
    match select {
        None => fields,
        Some(s) => fields.filter(|f: Keyed<V>| selected(s, f.key@)),
    }
}

fn is_selected(select: &Vec<String>, name: &str) -> (r: bool)
    ensures
        r == selected(select@, name@),
{
    let mut i: usize = 0;
    while i < select.len()
        invariant
            i <= select@.len(),
            forall|j: int| 0 <= j < i ==> (#[trigger] select@[j])@ != name@,
        decreases select@.len() - i,
    {
        if str_eq(select[i].as_str(), name) {
            return true;
        }
        i = i + 1;
    }
    false
}

/// Keeps the fields of a record that a selection names.
pub fn project<V>(fields: Vec<Keyed<V>>, select: Option<&Vec<String>>) -> (r: Vec<Keyed<V>>)
    ensures
        r@ == projected_fields(
            fields@,
            match select {
                Some(s) => Some(s@),
                None => None,
            },
        ),
{
    let s = match select {
        None => return fields,
        Some(s) => s,
    };
    let ghost all = fields@;
    let ghost pred = |f: Keyed<V>| selected(s@, f.key@);
    let mut kept: Vec<Keyed<V>> = Vec::new();
    let mut rest = fields;
    proof {
        reveal(Seq::filter);
        assert(all.take(0) =~= Seq::<Keyed<V>>::empty());
        assert(all.skip(0) =~= all);
    }
    let n = rest.len();
    let mut i: usize = 0;
    while i < n
        invariant
            n == all.len(),
            i <= n,
            rest@ == all.skip(i as int),
            kept@ == all.take(i as int).filter(pred),
            pred == (|f: Keyed<V>| selected(s@, f.key@)),
        decreases n - i,
    {
        proof {
            reveal(Seq::filter);
        }
        let f = rest.remove(0);
        proof {
            assert(f == all[i as int]);
            assert(all.take(i + 1).drop_last() =~= all.take(i as int));
            assert(all.take(i + 1).last() == all[i as int]);
            assert(rest@ =~= all.skip(i + 1));
        }
        if is_selected(s, f.key.as_str()) {
            kept.push(f);
        }
        i = i + 1;
    }
    proof {
        assert(all.take(n as int) =~= all);
    }
    kept
}


/// The store read that answers an adapter query on a model.
#[derive(Debug)]
pub enum AdapterSource {
    /// The user listing, with the query's conditions.
    Users,
    /// The linked accounts of the user with this id.
    Accounts(String),
    /// The sessions of the user with this id.
    Sessions(String),
}

/// The refusal of a model that the adapter does not expose.
pub open spec fn unknown_model_message(model: Seq<char>) -> Seq<char> {
    "the configured adapter does not expose model '"@ + model + "'"@
}

/// The refusal of a query that lacks the equality filter a model needs.
pub open spec fn missing_filter_message(field: Seq<char>) -> Seq<char> {
    "the configured adapter requires an equality filter for '"@ + field + "'"@
}

/// The refusal of a creation or update on a model other than `user`.
pub open spec fn unsupported_mutation_message() -> Seq<char> {
    "the configured adapter does not expose this model mutation"@
}

fn quoted_message(prefix: &str, name: &str) -> (r: String)
    ensures
        r@ == prefix@ + name@ + "'"@,
{
    let head = concat(prefix, name);
    concat(head.as_str(), "'")
}

/// The store read that answers a query on `model`: the user listing for
/// `user`; for `account` and `session`, the records of the user that an
/// equality filter on `userId` names, which such a query must carry; any
/// other model is refused.
pub fn adapter_source(model: &str, conditions: &Vec<DashAdapterCondition>) -> (r: Result<AdapterSource, String>)
    ensures
        model@ == "user"@ ==> r matches Ok(AdapterSource::Users),
        model@ == "account"@ ==> match equality_value(conditions@, "userId"@) {
            Some(u) => r matches Ok(AdapterSource::Accounts(id)) && id@ == u,
            None => r matches Err(m) && m@ == missing_filter_message("userId"@),
        },
        model@ == "session"@ ==> match equality_value(conditions@, "userId"@) {
            Some(u) => r matches Ok(AdapterSource::Sessions(id)) && id@ == u,
            None => r matches Err(m) && m@ == missing_filter_message("userId"@),
        },
        !(model@ == "user"@ || model@ == "account"@ || model@ == "session"@) ==> (r matches Err(m) && m@
            == unknown_model_message(model@)),
{
    proof {
        reveal_strlit("user");
        reveal_strlit("account");
        reveal_strlit("session");
        assert("user"@.len() == 4 && "account"@.len() == 7 && "session"@.len() == 7);
        assert("account"@[0] != "session"@[0]);
    }
    if str_eq(model, "user") {
        return Ok(AdapterSource::Users);
    }
    let is_account = str_eq(model, "account");
    if !is_account && !str_eq(model, "session") {
        return Err(quoted_message("the configured adapter does not expose model '", model));
    }
    let found = equality_filter(conditions, "userId");
    match found {
        Some(id) => if is_account {
            Ok(AdapterSource::Accounts(id))
        } else {
            Ok(AdapterSource::Sessions(id))
        },
        None => Err(quoted_message("the configured adapter requires an equality filter for '", "userId")),
    }
}

/// The page of `values` that starts at `offset` and holds at most `limit`
/// of them, or all that follow where there is no limit.
pub open spec fn page<T>(values: Seq<T>, offset: nat, limit: Option<nat>) -> Seq<T> {
    let rest = if offset <= values.len() {
        values.skip(offset as int)
    } else {
        Seq::empty()
    };
    match limit {
        Some(l) => if l <= rest.len() {
            rest.take(l as int)
        } else {
            rest
        },
        None => rest,
    }
}

/// Skips the first `offset` values and keeps at most `limit` of the rest,
/// in order.
pub fn skip_take<T>(values: Vec<T>, offset: usize, limit: Option<usize>) -> (r: Vec<T>)
    ensures
        r@ == page(
            values@,
            offset as nat,
            match limit {
                Some(l) => Some(l as nat),
                None => None,
            },
        ),
{
    let ghost all = values@;
    let ghost lim: Option<nat> = match limit {
        Some(l) => Some(l as nat),
        None => None,
    };
    let mut rest = values;
    let mut kept: Vec<T> = Vec::new();
    let n = rest.len();
    let mut i: usize = 0;
    proof {
        assert(all.skip(0) =~= all);
    }
    while i < n
        invariant
            n == all.len(),
            i <= n,
            rest@ == all.skip(i as int),
            kept@ == (if i <= offset {
                Seq::<T>::empty()
            } else {
                let stop = match lim {
                    Some(l) => if offset + l <= i { offset + l } else { i as int },
                    None => i as int,
                };
                all.subrange(offset as int, stop)
            }),
            lim == (match limit {
                Some(l) => Some(l as nat),
                None => None::<nat>,
            }),
        decreases n - i,
    {
        let v = rest.remove(0);
        proof {
            assert(v == all[i as int]);
            assert(rest@ =~= all.skip(i + 1));
        }
        if i >= offset {
            let within_limit = match limit {
                Some(l) => i - offset < l,
                None => true,
            };
            if within_limit {
                proof {
                    if i > offset {
                        assert(all.subrange(offset as int, i + 1) =~= all.subrange(offset as int, i as int).push(v));
                    } else {
                        assert(all.subrange(offset as int, i + 1) =~= seq![v]);
                    }
                }
                kept.push(v);
            }
        }
        i = i + 1;
    }
    proof {
        let p = page(all, offset as nat, lim);
        if n <= offset {
            assert(kept@ =~= p);
        } else {
            assert(all.skip(offset as int) =~= all.subrange(offset as int, n as int));
            match lim {
                Some(l) => {
                    if offset + l <= n {
                        assert(all.skip(offset as int).take(l as int) =~= all.subrange(offset as int, offset + l));
                    }
                },
                None => {},
            }
            assert(kept@ =~= p);
        }
    }
    kept
}


/// What an adapter request asks of its model.
#[derive(Clone, Copy, Debug, PartialEq, Eq, Structural)]
pub enum AdapterRequestKind {
    FindOne,
    FindMany { limit: Option<usize>, offset: usize },
    Create,
    Update,
    Count,
}

/// What the answer to an adapter query holds.
#[derive(Clone, Copy, Debug, PartialEq, Eq, Structural)]
pub enum AdapterReply {
    /// The last record found, projected onto the selection.
    One,
    /// The records found.
    Many,
    /// The number of records found.
    Count,
}

/// How an adapter request is answered.
#[derive(Debug)]
pub enum AdapterPlan {
    /// Query the model in this window and answer as `reply` says.
    Query { limit: Option<usize>, offset: usize, reply: AdapterReply },
    /// Create a user from the request's data.
    CreateUser,
    /// Update the user with this id.
    UpdateUser(String),
}

/// How a request of `kind` on `model` is answered: a single find queries at
/// most one record from the start, a count queries all of them, and a find
/// queries the window it names; creations and updates are only for `user`,
/// and an update names its user by an equality filter on `id`.
pub fn adapter_plan(kind: AdapterRequestKind, model: &str, conditions: &Vec<DashAdapterCondition>) -> (r: Result<
    AdapterPlan,
    String,
>)
    ensures
        kind is FindOne ==> (r matches Ok(AdapterPlan::Query { limit, offset, reply }) && limit == Some(1usize)
            && offset == 0 && reply == AdapterReply::One),
        kind matches AdapterRequestKind::FindMany { limit: l, offset: o } ==> (r matches Ok(
            AdapterPlan::Query { limit, offset, reply },
        ) && limit == l && offset == o && reply == AdapterReply::Many),
        kind is Count ==> (r matches Ok(AdapterPlan::Query { limit, offset, reply }) && limit is None && offset == 0
            && reply == AdapterReply::Count),
        kind is Create ==> if model@ == "user"@ {
            r matches Ok(AdapterPlan::CreateUser)
        } else {
            r matches Err(m) && m@ == unsupported_mutation_message()
        },
        kind is Update ==> if model@ != "user"@ {
            r matches Err(m) && m@ == unsupported_mutation_message()
        } else {
            match equality_value(conditions@, "id"@) {
                Some(u) => r matches Ok(AdapterPlan::UpdateUser(id)) && id@ == u,
                None => r matches Err(m) && m@ == missing_filter_message("id"@),
            }
        },
{
    match kind {
        AdapterRequestKind::FindOne => Ok(AdapterPlan::Query { limit: Some(1), offset: 0, reply: AdapterReply::One }),
        AdapterRequestKind::FindMany { limit, offset } => Ok(
            AdapterPlan::Query { limit, offset, reply: AdapterReply::Many },
        ),
        AdapterRequestKind::Count => Ok(AdapterPlan::Query { limit: None, offset: 0, reply: AdapterReply::Count }),
        AdapterRequestKind::Create => if str_eq(model, "user") {
            Ok(AdapterPlan::CreateUser)
        } else {
            Err(owned("the configured adapter does not expose this model mutation"))
        },
        AdapterRequestKind::Update => {
            if !str_eq(model, "user") {
                return Err(owned("the configured adapter does not expose this model mutation"));
            }
            let found = equality_filter(conditions, "id");
            match found {
                Some(id) => Ok(AdapterPlan::UpdateUser(id)),
                None => Err(quoted_message("the configured adapter requires an equality filter for '", "id")),
            }
        },
    }
}

/// The answer to a single find: the last record found, projected onto the
/// selection; none where no record was found.
pub fn find_one_result<V>(records: Vec<Vec<Keyed<V>>>, select: Option<&Vec<String>>) -> (r: Option<Vec<Keyed<V>>>)
    ensures
        records@.len() == 0 <==> r is None,
        r matches Some(v) ==> v@ == projected_fields(
            records@.last()@,
            match select {
                Some(s) => Some(s@),
                None => None,
            },
        ),
{
    let mut records = records;
    match records.pop() {
        Some(last) => Some(project(last, select)),
        None => None,
    }
}

} // verus!
