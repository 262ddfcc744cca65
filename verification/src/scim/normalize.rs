//! Normalization and validation of SCIM resources, as the SCIM endpoints
//! apply it before storing a User or a Group.

use crate::exact_clone::ExactClone;
use crate::scim::error::{invalid, invalid_value, ScimError, ScimErrorView};
use crate::scim::structured::{normalize_values, values_spec};
use crate::scim::model::{ScimGroupMemberView, ScimGroupView, ScimAddress, ScimEmail, ScimEmailView, ScimEntitlement, ScimNameView, ScimPhoneNumber, ScimRole, ScimUserView, ScimGroup, ScimGroupMember, ScimName, ScimUser};
use crate::scim::{SCIM_ENTERPRISE_USER_SCHEMA, SCIM_GROUP_SCHEMA, SCIM_USER_SCHEMA};
use crate::text::{
    concat, decimal, decimal_string, eq_ignore_ascii_case, str_eq_ignore_ascii_case, is_whitespace, owned, str_eq, string_from_range, to_chars, trim,
    trim_bounds, to_lowercase, unicode_lowercase, unicode_whitespace,
};
use vstd::prelude::*;

verus! {

/// The value of a validation outcome.
pub open spec fn outcome<A: DeepView>(r: Result<A, ScimError>) -> Result<A::V, ScimErrorView> {
    match r {
        Ok(v) => Ok(v.deep_view()),
        Err(e) => Err(e@),
    }
}

/// The value of a validation outcome without a result value.
pub open spec fn checked(r: Result<(), ScimError>) -> Result<(), ScimErrorView> {
    match r {
        Ok(v) => Ok(v),
        Err(e) => Err(e@),
    }
}

/// An `invalidValue` refusal with the given detail.
pub open spec fn refuse<A>(detail: Seq<char>) -> Result<A, ScimErrorView> {
    Err(invalid_value(detail))
}

/// The message of a length refusal.
pub open spec fn length_message(field: Seq<char>, max: nat) -> Seq<char> {
    field + " must contain between 1 and "@ + decimal(max) + " characters"@
}

/// A required text value: trimmed, and holding between 1 and `max`
/// characters.
pub open spec fn bounded_spec(value: Seq<char>, max: nat, field: Seq<char>) -> Result<
    Seq<char>,
    ScimErrorView,
> {
    let t = trim(value);
    if t.len() == 0 || t.len() > max {
        refuse(length_message(field, max))
    } else {
        Ok(t)
    }
}

/// An optional text value: absent, or bounded as a required one.
pub open spec fn optional_bounded_spec(value: Option<Seq<char>>, max: nat, field: Seq<char>) -> Result<
    Option<Seq<char>>,
    ScimErrorView,
> {
    match value {
        None => Ok(None),
        Some(v) => match bounded_spec(v, max, field) {
            Ok(t) => Ok(Some(t)),
            Err(e) => Err(e),
        },
    }
}

pub fn bounded(value: String, max: usize, field: &str) -> (r: Result<String, ScimError>)
    ensures
        outcome(r) == bounded_spec(value@, max as nat, field@),
{
    let v = to_chars(value.as_str());
    let (i, j) = trim_bounds(&v);
    if i == j || j - i > max {
        let m1 = concat(field, " must contain between 1 and ");
        let digits = decimal_string(max as u64);
        let m2 = concat(m1.as_str(), digits.as_str());
        let m3 = concat(m2.as_str(), " characters");
        Err(invalid(m3))
    } else {
        Ok(string_from_range(&v, i, j))
    }
}

pub fn optional_bounded(value: Option<String>, max: usize, field: &str) -> (r: Result<
    Option<String>,
    ScimError,
>)
    ensures
        outcome(r) == optional_bounded_spec(value.deep_view(), max as nat, field@),
{
    match value {
        None => Ok(None),
        Some(v) => match bounded(v, max, field) {
            Ok(t) => Ok(Some(t)),
            Err(e) => Err(e),
        },
    }
}

/// Index of the first occurrence of `c` in `s`.
pub open spec fn first_index_of(s: Seq<char>, c: char) -> Option<int>
    decreases s.len(),
{
    if s.len() == 0 {
        None
    } else if s[0] == c {
        Some(0)
    } else {
        match first_index_of(s.drop_first(), c) {
            Some(k) => Some(k + 1),
            None => None,
        }
    }
}

/// The shape of an email address that SCIM accepts: a non-empty local part
/// before the first `@`, a domain after it that contains a `.` but neither
/// starts nor ends with one, and no white space anywhere.
pub open spec fn looks_like_email_spec(value: Seq<char>) -> bool {
    match first_index_of(value, '@') {
        None => false,
        Some(k) => {
            let local = value.take(k);
            let domain = value.skip(k + 1);
            &&& local.len() > 0
            &&& domain.contains('.')
            &&& domain.len() > 0
            &&& domain[0] != '.'
            &&& domain.last() != '.'
            &&& forall|i: int| 0 <= i < value.len() ==> !unicode_whitespace(#[trigger] value[i])
        },
    }
}

fn find_first(v: &Vec<char>, c: char) -> (r: Option<usize>)
    ensures
        first_index_of(v@, c) is None <==> r is None,
        r matches Some(k) ==> k < v@.len() && first_index_of(v@, c) == Some(k as int),
{
    let mut i: usize = 0;
    assert(v@.skip(0) =~= v@);
    while i < v.len()
        invariant
            i <= v@.len(),
            forall|k: int| 0 <= k < i ==> v@[k] != c,
            first_index_of(v@, c) == (match first_index_of(v@.skip(i as int), c) {
                Some(k) => Some(k + i),
                None => None,
            }),
        decreases v@.len() - i,
    {
        assert(v@.skip(i as int).drop_first() =~= v@.skip(i + 1));
        if v[i] == c {
            return Some(i);
        }
        i = i + 1;
    }
    None
}

pub fn looks_like_email(value: &str) -> (r: bool)
    ensures
        r == looks_like_email_spec(value@),
{
    let v = to_chars(value);
    let k = match find_first(&v, '@') {
        None => {
            return false;
        },
        Some(k) => k,
    };
    let ghost domain = v@.skip(k + 1);
    if k == 0 {
        return false;
    }
    let n = v.len();
    let mut has_dot = false;
    let mut d: usize = k + 1;
    while d < n
        invariant
            k < n,
            n == v@.len(),
            k + 1 <= d <= n,
            has_dot == (exists|w: int| k + 1 <= w < d && v@[w] == '.'),
        decreases n - d,
    {
        if v[d] == '.' {
            has_dot = true;
        }
        d = d + 1;
    }
    proof {
        if has_dot {
            let w = choose|w: int| k + 1 <= w < n && v@[w] == '.';
            assert(domain[w - (k + 1)] == '.');
        }
        if domain.contains('.') {
            let w = choose|w: int| 0 <= w < domain.len() && domain[w] == '.';
            assert(v@[w + k + 1] == '.');
        }
    }
    if !has_dot || v[k + 1] == '.' || v[n - 1] == '.' {
        return false;
    }
    let mut i: usize = 0;
    while i < n
        invariant
            n == v@.len(),
            v@ == value@,
            i <= n,
            forall|j: int| 0 <= j < i ==> !unicode_whitespace(#[trigger] v@[j]),
        decreases n - i,
    {
        if is_whitespace(v[i]) {
            return false;
        }
        i = i + 1;
    }
    true
}

/// Applies `f` to each element in order; the first refusal is the result.
pub open spec fn try_map<A, B>(s: Seq<A>, f: spec_fn(A) -> Result<B, ScimErrorView>) -> Result<
    Seq<B>,
    ScimErrorView,
>
    decreases s.len(),
{
    if s.len() == 0 {
        Ok(seq![])
    } else {
        match f(s[0]) {
            Err(e) => Err(e),
            Ok(b) => match try_map(s.drop_first(), f) {
                Err(e) => Err(e),
                Ok(rest) => Ok(seq![b] + rest),
            },
        }
    }
}

/// `done` followed by the outcome of the rest.
pub open spec fn after<B>(done: Seq<B>, rest: Result<Seq<B>, ScimErrorView>) -> Result<
    Seq<B>,
    ScimErrorView,
> {
    match rest {
        Ok(r) => Ok(done + r),
        Err(e) => Err(e),
    }
}

pub proof fn lemma_try_map_start<A, B>(s: Seq<A>, f: spec_fn(A) -> Result<B, ScimErrorView>)
    ensures
        try_map(s, f) == after(Seq::<B>::empty(), try_map(s.skip(0), f)),
{
    assert(s.skip(0) =~= s);
    match try_map(s, f) {
        Ok(r) => {
            assert(Seq::<B>::empty() + r =~= r);
        },
        Err(_) => {},
    }
}

pub proof fn lemma_try_map_step<A, B>(
    s: Seq<A>,
    f: spec_fn(A) -> Result<B, ScimErrorView>,
    done: Seq<B>,
    i: int,
)
    requires
        0 <= i < s.len(),
    ensures
        after(done, try_map(s.skip(i), f)) == match f(s[i]) {
            Err(e) => Err(e),
            Ok(b) => after(done.push(b), try_map(s.skip(i + 1), f)),
        },
{
    assert(s.skip(i).drop_first() =~= s.skip(i + 1));
    assert(s.skip(i)[0] == s[i]);
    match f(s[i]) {
        Ok(b) => match try_map(s.skip(i + 1), f) {
            Ok(rest) => {
                assert(done + (seq![b] + rest) =~= done.push(b) + rest);
            },
            Err(_) => {},
        },
        Err(_) => {},
    }
}

pub proof fn lemma_try_map_end<A, B>(
    s: Seq<A>,
    f: spec_fn(A) -> Result<B, ScimErrorView>,
    done: Seq<B>,
)
    ensures
        after(done, try_map(s.skip(s.len() as int), f)) == Ok::<Seq<B>, ScimErrorView>(done),
{
    assert(s.skip(s.len() as int) =~= Seq::<A>::empty());
    assert(done + Seq::<B>::empty() =~= done);
}

pub proof fn lemma_try_map_len<A, B>(s: Seq<A>, f: spec_fn(A) -> Result<B, ScimErrorView>)
    ensures
        try_map(s, f) matches Ok(r) ==> r.len() == s.len(),
    decreases s.len(),
{
    if s.len() > 0 {
        lemma_try_map_len(s.drop_first(), f);
    }
}

/// The first refusal that `check` finds, visiting the positions of `s` from
/// `from` on.
pub open spec fn first_refusal<A>(
    s: Seq<A>,
    check: spec_fn(Seq<A>, int) -> Option<ScimErrorView>,
    from: int,
) -> Option<ScimErrorView>
    decreases s.len() - from,
{
    if from < 0 || from >= s.len() {
        None
    } else {
        match check(s, from) {
            Some(e) => Some(e),
            None => first_refusal(s, check, from + 1),
        }
    }
}

/// The number of elements of `s` that satisfy `p`.
pub open spec fn count_where<A>(s: Seq<A>, p: spec_fn(A) -> bool) -> nat
    decreases s.len(),
{
    if s.len() == 0 {
        0
    } else {
        (if p(s[0]) {
            1nat
        } else {
            0nat
        }) + count_where(s.drop_first(), p)
    }
}

pub proof fn lemma_count_where_push<A>(s: Seq<A>, p: spec_fn(A) -> bool, a: A)
    ensures
        count_where(s.push(a), p) == count_where(s, p) + (if p(a) {
            1nat
        } else {
            0nat
        }),
    decreases s.len(),
{
    if s.len() == 0 {
        assert(s.push(a).drop_first() =~= Seq::<A>::empty());
        assert(s.push(a)[0] == a);
        assert(count_where(Seq::<A>::empty(), p) == 0);
        assert(count_where(s, p) == 0);
    } else {
        assert(s.push(a).drop_first() =~= s.drop_first().push(a));
        assert(s.push(a)[0] == s[0]);
        lemma_count_where_push(s.drop_first(), p, a);
    }
}

pub proof fn lemma_count_where_update_other<A>(s: Seq<A>, p: spec_fn(A) -> bool, i: int, a: A)
    requires
        0 <= i < s.len(),
        p(s[i]) == p(a),
    ensures
        count_where(s.update(i, a), p) == count_where(s, p),
    decreases s.len(),
{
    if i == 0 {
        assert(s.update(i, a).drop_first() =~= s.drop_first());
    } else {
        assert(s.update(i, a).drop_first() =~= s.drop_first().update(i - 1, a));
        lemma_count_where_update_other(s.drop_first(), p, i - 1, a);
    }
}

pub proof fn lemma_count_where_insert<A>(s: Seq<A>, p: spec_fn(A) -> bool, i: int, a: A)
    requires
        0 <= i <= s.len(),
    ensures
        count_where(s.insert(i, a), p) == count_where(s, p) + (if p(a) {
            1nat
        } else {
            0nat
        }),
    decreases s.len(),
{
    if i == 0 {
        assert(s.insert(i, a).drop_first() =~= s);
    } else {
        assert(s.insert(i, a).drop_first() =~= s.drop_first().insert(i - 1, a));
        lemma_count_where_insert(s.drop_first(), p, i - 1, a);
    }
}

pub proof fn lemma_count_where_update<A>(s: Seq<A>, p: spec_fn(A) -> bool, i: int, a: A)
    requires
        0 <= i < s.len(),
    ensures
        count_where(s.update(i, a), p) <= count_where(s, p) + 1,
    decreases s.len(),
{
    if i == 0 {
        assert(s.update(i, a).drop_first() =~= s.drop_first());
    } else {
        assert(s.update(i, a).drop_first() =~= s.drop_first().update(i - 1, a));
        lemma_count_where_update(s.drop_first(), p, i - 1, a);
    }
}

/// The refusal, if any, of the schema at position `j` of a User's schemas:
/// only the core and Enterprise User schemas are accepted, each once.
pub open spec fn user_schema_refusal(s: Seq<Seq<char>>, j: int) -> Option<ScimErrorView> {
    let x = s[j];
    if x != SCIM_USER_SCHEMA@ && x != SCIM_ENTERPRISE_USER_SCHEMA@ {
        Some(invalid_value("Unsupported SCIM User schema "@ + x))
    } else if exists|i: int| 0 <= i < j && s[i] == x {
        Some(invalid_value("SCIM User schema "@ + x + " must not be duplicated"@))
    } else {
        None
    }
}

/// The first refusal among the schemas from position `from` on.
pub open spec fn user_schema_scan(s: Seq<Seq<char>>, from: int) -> Option<ScimErrorView>
    decreases s.len() - from,
{
    if from < 0 || from >= s.len() {
        None
    } else {
        match user_schema_refusal(s, from) {
            Some(e) => Some(e),
            None => user_schema_scan(s, from + 1),
        }
    }
}

/// The schema rules of a User: one or two schemas, each accepted and
/// distinct, the core schema among them, and the Enterprise User schema when
/// the User carries the Enterprise extension.
pub open spec fn user_schemas_spec(s: Seq<Seq<char>>, enterprise: bool) -> Result<(), ScimErrorView> {
    if s.len() == 0 || s.len() > 2 {
        refuse("schemas must contain the core SCIM User schema"@)
    } else {
        match user_schema_scan(s, 0) {
            Some(e) => Err(e),
            None => if !s.contains(SCIM_USER_SCHEMA@) {
                refuse("schemas must contain "@ + SCIM_USER_SCHEMA@)
            } else if enterprise && !s.contains(SCIM_ENTERPRISE_USER_SCHEMA@) {
                refuse(
                    "The Enterprise User extension requires "@ + SCIM_ENTERPRISE_USER_SCHEMA@
                        + " in schemas"@,
                )
            } else {
                Ok(())
            },
        }
    }
}

fn contains_string(values: &Vec<String>, upto: usize, value: &str) -> (r: bool)
    requires
        upto <= values@.len(),
    ensures
        r == (exists|i: int| 0 <= i < upto && values.deep_view()[i] == value@),
{
    let mut i: usize = 0;
    while i < upto
        invariant
            upto <= values@.len(),
            i <= upto,
            forall|k: int| 0 <= k < i ==> values.deep_view()[k] != value@,
        decreases upto - i,
    {
        if str_eq(values[i].as_str(), value) {
            assert(values.deep_view()[i as int] == value@);
            return true;
        }
        i = i + 1;
    }
    false
}

pub fn validate_user_schemas(schemas: &Vec<String>, enterprise: bool) -> (r: Result<(), ScimError>)
    ensures
        checked(r) == user_schemas_spec(schemas.deep_view(), enterprise),
{
    let ghost s = schemas.deep_view();
    if schemas.len() == 0 || schemas.len() > 2 {
        return Err(invalid(owned("schemas must contain the core SCIM User schema")));
    }
    let mut j: usize = 0;
    while j < schemas.len()
        invariant
            s == schemas.deep_view(),
            1 <= schemas@.len() <= 2,
            j <= schemas@.len(),
            user_schema_scan(s, 0) == user_schema_scan(s, j as int),
        decreases schemas@.len() - j,
    {
        let x = schemas[j].as_str();
        proof {
            assert(s[j as int] == x@);
        }
        if !str_eq(x, SCIM_USER_SCHEMA) && !str_eq(x, SCIM_ENTERPRISE_USER_SCHEMA) {
            let e = invalid(concat("Unsupported SCIM User schema ", x));
            assert(user_schema_refusal(s, j as int) == Some(e@));
            assert(user_schema_scan(s, j as int) == Some(e@));
            return Err(e);
        }
        if contains_string(schemas, j, x) {
            let m = concat("SCIM User schema ", x);
            let e = invalid(concat(m.as_str(), " must not be duplicated"));
            assert(user_schema_refusal(s, j as int) == Some(e@));
            assert(user_schema_scan(s, j as int) == Some(e@));
            return Err(e);
        }
        j = j + 1;
    }
    proof {
        assert(user_schema_scan(s, j as int) == None::<ScimErrorView>);
    }
    let n = schemas.len();
    if !contains_string(schemas, n, SCIM_USER_SCHEMA) {
        proof {
            if s.contains(SCIM_USER_SCHEMA@) {
                let w = choose|w: int| 0 <= w < s.len() && s[w] == SCIM_USER_SCHEMA@;
                assert(schemas.deep_view()[w] == SCIM_USER_SCHEMA@);
            }
        }
        return Err(invalid(concat("schemas must contain ", SCIM_USER_SCHEMA)));
    }
    let has_enterprise = contains_string(schemas, n, SCIM_ENTERPRISE_USER_SCHEMA);
    proof {
        let w = choose|w: int| 0 <= w < n && schemas.deep_view()[w] == SCIM_USER_SCHEMA@;
        assert(s[w] == SCIM_USER_SCHEMA@);
        if has_enterprise {
            let w2 = choose|w2: int| 0 <= w2 < n && schemas.deep_view()[w2]
                == SCIM_ENTERPRISE_USER_SCHEMA@;
            assert(s[w2] == SCIM_ENTERPRISE_USER_SCHEMA@);
        }
        if s.contains(SCIM_ENTERPRISE_USER_SCHEMA@) {
            let w3 = choose|w3: int| 0 <= w3 < s.len() && s[w3] == SCIM_ENTERPRISE_USER_SCHEMA@;
            assert(schemas.deep_view()[w3] == SCIM_ENTERPRISE_USER_SCHEMA@);
        }
    }
    if enterprise && !has_enterprise {
        let m = concat("The Enterprise User extension requires ", SCIM_ENTERPRISE_USER_SCHEMA);
        return Err(invalid(concat(m.as_str(), " in schemas")));
    }
    Ok(())
}

/// An email value after normalization: its value bounded to 254 characters
/// and shaped like an address, its type bounded to 256 characters and
/// lower-cased.
pub open spec fn email_entry_spec(e: ScimEmailView) -> Result<ScimEmailView, ScimErrorView> {
    match bounded_spec(e.value, 254, "emails.value"@) {
        Err(x) => Err(x),
        Ok(v) => if !looks_like_email_spec(v) {
            refuse("Invalid email address"@)
        } else {
            match optional_bounded_spec(e.kind, 256, "emails.type"@) {
                Err(x) => Err(x),
                Ok(k) => Ok(
                    ScimEmailView {
                        value: v,
                        primary: e.primary,
                        kind: match k {
                            Some(t) => Some(unicode_lowercase(t)),
                            None => None,
                        },
                    },
                ),
            }
        },
    }
}

pub open spec fn is_primary(e: ScimEmailView) -> bool {
    e.primary == Some(true)
}

pub open spec fn primary_email_pred() -> spec_fn(ScimEmailView) -> bool {
    |e: ScimEmailView| is_primary(e)
}

pub open spec fn email_entry_fn() -> spec_fn(ScimEmailView) -> Result<ScimEmailView, ScimErrorView> {
    |e: ScimEmailView| email_entry_spec(e)
}

/// The (type, value) pair by which two email values are duplicates.
pub open spec fn email_identity(e: ScimEmailView) -> (Option<Seq<char>>, Seq<char>) {
    (
        match e.kind {
            Some(k) => Some(unicode_lowercase(k)),
            None => None,
        },
        unicode_lowercase(e.value),
    )
}

/// The refusal, if any, of the email value at position `j`: its (type,
/// value) pair, or its defined type, repeats an earlier one.
pub open spec fn email_refusal(s: Seq<ScimEmailView>, j: int) -> Option<ScimErrorView> {
    if exists|i: int| 0 <= i < j && email_identity(s[i]) == email_identity(s[j]) {
        Some(invalid_value("emails cannot contain duplicate type and value pairs"@))
    } else if s[j].kind is Some && exists|i: int|
        0 <= i < j && s[i].kind is Some && unicode_lowercase(s[i].kind->0) == unicode_lowercase(
            s[j].kind->0,
        ) {
        Some(invalid_value("emails cannot contain duplicate defined types"@))
    } else {
        None
    }
}

/// The first duplicate among the email values from position `from` on.
pub open spec fn email_scan(s: Seq<ScimEmailView>, from: int) -> Option<ScimErrorView>
    decreases s.len() - from,
{
    if from < 0 || from >= s.len() {
        None
    } else {
        match email_refusal(s, from) {
            Some(e) => Some(e),
            None => email_scan(s, from + 1),
        }
    }
}

/// The email values of a User after normalization: at most 20; the user name
/// stands in as the primary email when there is none (it must then look like
/// an address); at most one primary; each value normalized; the first value
/// made primary when none is; no duplicate pairs or defined types.
pub open spec fn emails_spec(user_name: Seq<char>, emails: Seq<ScimEmailView>) -> Result<
    Seq<ScimEmailView>,
    ScimErrorView,
> {
    if emails.len() > 20 {
        refuse("emails must contain at most 20 values"@)
    } else if emails.len() == 0 && !looks_like_email_spec(user_name) {
        refuse("emails must contain an email when userName is not an email address"@)
    } else {
        let base = if emails.len() == 0 {
            seq![ScimEmailView { value: user_name, primary: Some(true), kind: None }]
        } else {
            emails
        };
        let primaries = count_where(base, primary_email_pred());
        if primaries > 1 {
            refuse("emails cannot contain multiple primary values"@)
        } else {
            emails_after_count(base, primaries)
        }
    }
}

/// The email values after the primary count is known to be at most one.
pub open spec fn emails_after_count(base: Seq<ScimEmailView>, primaries: nat) -> Result<
    Seq<ScimEmailView>,
    ScimErrorView,
> {
    match try_map(base, email_entry_fn()) {
        Err(x) => Err(x),
        Ok(normalized) => {
            let marked = if primaries == 0 {
                normalized.update(
                    0,
                    ScimEmailView {
                        value: normalized[0].value,
                        primary: Some(true),
                        kind: normalized[0].kind,
                    },
                )
            } else {
                normalized
            };
            match email_scan(marked, 0) {
                Some(x) => Err(x),
                None => Ok(marked),
            }
        },
    }
}

proof fn lemma_entries_keep_primaries(s: Seq<ScimEmailView>)
    ensures
        try_map(s, email_entry_fn()) matches Ok(n) ==> count_where(n, primary_email_pred()) == count_where(
            s,
            primary_email_pred(),
        ),
    decreases s.len(),
{
    if s.len() > 0 {
        lemma_entries_keep_primaries(s.drop_first());
        match email_entry_spec(s[0]) {
            Ok(b) => match try_map(s.drop_first(), email_entry_fn()) {
                Ok(rest) => {
                    let n = seq![b] + rest;
                    assert(n.drop_first() =~= rest);
                    assert(n[0] == b);
                },
                Err(_) => {},
            },
            Err(_) => {},
        }
    }
}

/// Normalized email values hold exactly one primary value: the one that was
/// marked, or else the first.
pub proof fn law_one_primary_email(user_name: Seq<char>, emails: Seq<ScimEmailView>)
    ensures
        emails_spec(user_name, emails) matches Ok(es) ==> count_where(es, primary_email_pred()) == 1,
{
    if emails.len() <= 20 && !(emails.len() == 0 && !looks_like_email_spec(user_name)) {
        let base = if emails.len() == 0 {
            seq![ScimEmailView { value: user_name, primary: Some(true), kind: None }]
        } else {
            emails
        };
        let primaries = count_where(base, primary_email_pred());
        lemma_entries_keep_primaries(base);
        lemma_try_map_len(base, email_entry_fn());
        if primaries <= 1 {
            if let Ok(normalized) = try_map(base, email_entry_fn()) {
                if primaries == 0 {
                    let a = ScimEmailView {
                        value: normalized[0].value,
                        primary: Some(true),
                        kind: normalized[0].kind,
                    };
                    let marked = normalized.update(0, a);
                    assert(marked.drop_first() =~= normalized.drop_first());
                    assert(marked[0] == a);
                }
            }
        }
    }
}

fn normalize_email_entry(e: ScimEmail) -> (r: Result<ScimEmail, ScimError>)
    ensures
        outcome(r) == email_entry_spec(e@),
{
    let ScimEmail { value, primary, kind } = e;
    let value = match bounded(value, 254, "emails.value") {
        Ok(v) => v,
        Err(x) => {
            return Err(x);
        },
    };
    if !looks_like_email(value.as_str()) {
        return Err(invalid(owned("Invalid email address")));
    }
    let kind = match optional_bounded(kind, 256, "emails.type") {
        Ok(k) => k,
        Err(x) => {
            return Err(x);
        },
    };
    let kind = match kind {
        Some(t) => Some(to_lowercase(t.as_str())),
        None => None,
    };
    Ok(ScimEmail { value, primary, kind })
}

fn opt_lowercase(k: &Option<String>) -> (r: Option<String>)
    ensures
        r.deep_view() == (match k.deep_view() {
            Some(t) => Some(unicode_lowercase(t)),
            None => None,
        }),
{
    match k {
        Some(t) => Some(to_lowercase(t.as_str())),
        None => None,
    }
}

/// Whether two optional strings are equal.
pub fn opt_str_eq(a: &Option<String>, b: &Option<String>) -> (r: bool)
    ensures
        r == (a.deep_view() == b.deep_view()),
{
    match (a, b) {
        (Some(x), Some(y)) => str_eq(x.as_str(), y.as_str()),
        (None, None) => true,
        _ => false,
    }
}

fn validate_email_uniqueness(emails: &Vec<ScimEmail>) -> (r: Result<(), ScimError>)
    ensures
        checked(r) == (match email_scan(emails.deep_view(), 0) {
            Some(x) => Err(x),
            None => Ok(()),
        }),
{
    let ghost s = emails.deep_view();
    let mut j: usize = 0;
    while j < emails.len()
        invariant
            s == emails.deep_view(),
            j <= emails@.len(),
            email_scan(s, 0) == email_scan(s, j as int),
        decreases emails@.len() - j,
    {
        let kind_j = opt_lowercase(&emails[j].kind);
        let value_j = to_lowercase(emails[j].value.as_str());
        let mut i: usize = 0;
        let mut same_pair = false;
        let mut same_kind = false;
        while i < j
            invariant
                s == emails.deep_view(),
                j < emails@.len(),
                i <= j,
                kind_j.deep_view() == email_identity(s[j as int]).0,
                value_j@ == email_identity(s[j as int]).1,
                same_pair == (exists|k: int| 0 <= k < i && email_identity(s[k]) == email_identity(s[j as int])),
                same_kind == (s[j as int].kind is Some && exists|k: int| 0 <= k < i && s[k].kind is Some && unicode_lowercase(s[k].kind->0) == unicode_lowercase(s[j as int].kind->0)),
            decreases j - i,
        {
            let kind_i = opt_lowercase(&emails[i].kind);
            let value_i = to_lowercase(emails[i].value.as_str());
            assert(s[i as int] == emails@[i as int]@);
            if opt_str_eq(&kind_i, &kind_j) && str_eq(value_i.as_str(), value_j.as_str()) {
                same_pair = true;
            }
            if emails[i].kind.is_some() && emails[j].kind.is_some() && opt_str_eq(&kind_i, &kind_j) {
                same_kind = true;
            }
            proof {
                if same_pair {
                    assert(exists|k: int| 0 <= k < i + 1 && email_identity(s[k]) == email_identity(s[j as int]));
                }
                if same_kind {
                    assert(exists|k: int| 0 <= k < i + 1 && s[k].kind is Some && unicode_lowercase(s[k].kind->0) == unicode_lowercase(s[j as int].kind->0));
                }
            }
            i = i + 1;
        }
        if same_pair {
            let e = invalid(owned("emails cannot contain duplicate type and value pairs"));
            assert(email_scan(s, j as int) == Some(e@));
            return Err(e);
        }
        if same_kind {
            let e = invalid(owned("emails cannot contain duplicate defined types"));
            assert(email_scan(s, j as int) == Some(e@));
            return Err(e);
        }
        assert(email_refusal(s, j as int) == None::<ScimErrorView>);
        j = j + 1;
    }
    Ok(())
}

/// Normalizes the email values of a User whose user name is `user_name`.
pub fn normalize_emails(user_name: &str, emails: &mut Vec<ScimEmail>) -> (r: Result<(), ScimError>)
    ensures
        match emails_spec(user_name@, old(emails).deep_view()) {
            Ok(v) => r is Ok && final(emails).deep_view() == v,
            Err(x) => r matches Err(e) && e@ == x,
        },
{
    let ghost original = emails.deep_view();
    if emails.len() > 20 {
        return Err(invalid(owned("emails must contain at most 20 values")));
    }
    let mut base: Vec<ScimEmail> = Vec::new();
    std::mem::swap(&mut base, emails);
    if base.len() == 0 {
        if !looks_like_email(user_name) {
            return Err(
                invalid(owned("emails must contain an email when userName is not an email address")),
            );
        }
        base.push(ScimEmail { value: owned(user_name), primary: Some(true), kind: None });
        assert(base.deep_view() =~= seq![
            ScimEmailView { value: user_name@, primary: Some(true), kind: None },
        ]);
    }
    let ghost b = base.deep_view();
    let mut primaries: usize = 0;
    let mut i: usize = 0;
    while i < base.len()
        invariant
            b == base.deep_view(),
            base@.len() <= 20,
            i <= base@.len(),
            primaries == count_where(b.take(i as int), primary_email_pred()),
            primaries <= i,
        decreases base@.len() - i,
    {
        proof {
            assert(b.take(i + 1) =~= b.take(i as int).push(b[i as int]));
            lemma_count_where_push(b.take(i as int), primary_email_pred(), b[i as int]);
        }
        if base[i].primary == Some(true) {
            primaries = primaries + 1;
        }
        i = i + 1;
    }
    assert(b.take(b.len() as int) =~= b);
    if primaries > 1 {
        return Err(invalid(owned("emails cannot contain multiple primary values")));
    }
    let ghost f = email_entry_fn();
    let mut normalized: Vec<ScimEmail> = Vec::new();
    proof {
        lemma_try_map_start(b, f);
        assert(normalized.deep_view() =~= Seq::<ScimEmailView>::empty());
    }
    let count = base.len();
    let mut j: usize = 0;
    while j < count
        invariant
            count == b.len(),
            b == base.deep_view(),
            f == email_entry_fn(),
            emails_spec(user_name@, old(emails).deep_view()) == emails_after_count(b, primaries as nat),
            j <= b.len(),
            try_map(b, f) == after(normalized.deep_view(), try_map(b.skip(j as int), f)),
            normalized@.len() == j,
        decreases b.len() - j,
    {
        let e = base[j].exact_clone();
        assert(e.deep_view() == b[j as int]);
        proof {
            lemma_try_map_step(b, f, normalized.deep_view(), j as int);
            assert(f(b[j as int]) == email_entry_spec(b[j as int]));
        }
        match normalize_email_entry(e) {
            Ok(n) => {
                let ghost prev = normalized.deep_view();
                normalized.push(n);
                assert(normalized.deep_view() =~= prev.push(n.deep_view()));
            },
            Err(x) => {
                return Err(x);
            },
        }
        j = j + 1;
    }
    proof {
        lemma_try_map_end(b, f, normalized.deep_view());
        lemma_try_map_len(b, f);
    }
    if primaries == 0 {
        let ghost before = normalized.deep_view();
        normalized[0].primary = Some(true);
        assert(normalized.deep_view() =~= before.update(
            0,
            ScimEmailView { value: before[0].value, primary: Some(true), kind: before[0].kind },
        ));
    }
    match validate_email_uniqueness(&normalized) {
        Ok(()) => {},
        Err(x) => {
            return Err(x);
        },
    }
    *emails = normalized;
    Ok(())
}

/// The display name that a User's names compose: given and family name
/// joined by a space, either alone when the other is missing.
pub open spec fn composed_name(given: Option<Seq<char>>, family: Option<Seq<char>>) -> Seq<char> {
    match (given, family) {
        (Some(g), Some(f)) => g + " "@ + f,
        (Some(g), None) => g,
        (None, Some(f)) => f,
        (None, None) => Seq::empty(),
    }
}

/// A User with no display name and no formatted name takes its display
/// name from its name parts: the given and family names that are present,
/// trimmed and joined by a single space. The formatted name is the same.
pub proof fn law_display_name_from_name_parts(
    user_name: Seq<char>,
    given: Option<Seq<char>>,
    family: Option<Seq<char>>,
)
    requires
        given is Some || family is Some,
        given matches Some(g) ==> 0 < trim(g).len() <= 256,
        family matches Some(f) ==> 0 < trim(f).len() <= 256,
    ensures
        ({
            let joined = match (given, family) {
                (Some(g), Some(f)) => trim(g) + seq![' '] + trim(f),
                (Some(g), None) => trim(g),
                (None, Some(f)) => trim(f),
                (None, None) => Seq::empty(),
            };
            let name = ScimNameView {
                formatted: None,
                given_name: given,
                family_name: family,
                middle_name: None,
                honorific_prefix: None,
                honorific_suffix: None,
            };
            name_spec(user_name, None, Some(name)) matches Ok((Some(d), Some(n))) && d == joined && n.formatted
                == Some(joined)
        }),
{
    reveal_strlit(" ");
    assert(" "@ =~= seq![' ']);
}

/// A display name that is given, and not empty, is kept; with neither a
/// display name, a formatted name nor name parts, the user name stands in.
/// Either way the formatted name defaults to the display name.
pub proof fn law_display_name_given_or_user_name(user_name: Seq<char>, display_name: Option<Seq<char>>)
    ensures
        display_name is Some && display_name->0.len() > 0 ==> (name_spec(user_name, display_name, None) matches Ok(
            (Some(x), Some(n)),
        ) && x == display_name->0 && n.formatted == display_name),
        display_name is None ==> (name_spec(user_name, display_name, None) matches Ok((Some(x), Some(n))) && x
            == user_name && n.formatted == Some(user_name)),
{
}

pub open spec fn empty_name() -> ScimNameView {
    ScimNameView {
        formatted: None,
        given_name: None,
        family_name: None,
        middle_name: None,
        honorific_prefix: None,
        honorific_suffix: None,
    }
}

/// The names of a User after normalization: each name part bounded to 256
/// characters and the formatted name to 1024; the display name is the given
/// display name, else the formatted name, when not empty, else the composed
/// name, else the user name; the formatted name defaults to the display name.
pub open spec fn name_spec(
    user_name: Seq<char>,
    display_name: Option<Seq<char>>,
    name: Option<ScimNameView>,
) -> Result<(Option<Seq<char>>, Option<ScimNameView>), ScimErrorView> {
    let n = match name {
        Some(v) => v,
        None => empty_name(),
    };
    match optional_bounded_spec(n.given_name, 256, "name"@) {
        Err(e) => Err(e),
        Ok(given) => match optional_bounded_spec(n.family_name, 256, "name"@) {
            Err(e) => Err(e),
            Ok(family) => match optional_bounded_spec(n.middle_name, 256, "name"@) {
                Err(e) => Err(e),
                Ok(middle) => match optional_bounded_spec(n.honorific_prefix, 256, "name"@) {
                    Err(e) => Err(e),
                    Ok(prefix) => match optional_bounded_spec(n.honorific_suffix, 256, "name"@) {
                        Err(e) => Err(e),
                        Ok(suffix) => match optional_bounded_spec(n.formatted, 1024, "name.formatted"@) {
                            Err(e) => Err(e),
                            Ok(formatted) => {
                                let chosen = match display_name {
                                    Some(d) => Some(d),
                                    None => formatted,
                                };
                                let composed = composed_name(given, family);
                                let display = match chosen {
                                    Some(c) => if c.len() > 0 {
                                        c
                                    } else if composed.len() == 0 {
                                        user_name
                                    } else {
                                        composed
                                    },
                                    None => if composed.len() == 0 {
                                        user_name
                                    } else {
                                        composed
                                    },
                                };
                                Ok(
                                    (
                                        Some(display),
                                        Some(
                                            ScimNameView {
                                                formatted: match formatted {
                                                    Some(f) => Some(f),
                                                    None => Some(display),
                                                },
                                                given_name: given,
                                                family_name: family,
                                                middle_name: middle,
                                                honorific_prefix: prefix,
                                                honorific_suffix: suffix,
                                            },
                                        ),
                                    ),
                                )
                            },
                        },
                    },
                },
            },
        },
    }
}

fn composed(given: &Option<String>, family: &Option<String>) -> (r: String)
    ensures
        r@ == composed_name(given.deep_view(), family.deep_view()),
{
    match (given, family) {
        (Some(g), Some(f)) => {
            let with_space = concat(g.as_str(), " ");
            concat(with_space.as_str(), f.as_str())
        },
        (Some(g), None) => g.exact_clone(),
        (None, Some(f)) => f.exact_clone(),
        (None, None) => String::new(),
    }
}

/// Normalizes the names of a User whose user name is `user_name`.
pub fn normalize_name(
    user_name: &str,
    display_name: &mut Option<String>,
    name: &mut Option<ScimName>,
) -> (r: Result<(), ScimError>)
    ensures
        match name_spec(user_name@, old(display_name).deep_view(), old(name).deep_view()) {
            Ok((d, n)) => r is Ok && final(display_name).deep_view() == d && final(name).deep_view() == n,
            Err(x) => r matches Err(e) && e@ == x,
        },
{
    let current = match name.take() {
        Some(v) => v,
        None => ScimName {
            formatted: None,
            given_name: None,
            family_name: None,
            middle_name: None,
            honorific_prefix: None,
            honorific_suffix: None,
        },
    };
    let ScimName {
        formatted,
        given_name,
        family_name,
        middle_name,
        honorific_prefix,
        honorific_suffix,
    } = current;
    let given_name = match optional_bounded(given_name, 256, "name") {
        Ok(v) => v,
        Err(e) => {
            return Err(e);
        },
    };
    let family_name = match optional_bounded(family_name, 256, "name") {
        Ok(v) => v,
        Err(e) => {
            return Err(e);
        },
    };
    let middle_name = match optional_bounded(middle_name, 256, "name") {
        Ok(v) => v,
        Err(e) => {
            return Err(e);
        },
    };
    let honorific_prefix = match optional_bounded(honorific_prefix, 256, "name") {
        Ok(v) => v,
        Err(e) => {
            return Err(e);
        },
    };
    let honorific_suffix = match optional_bounded(honorific_suffix, 256, "name") {
        Ok(v) => v,
        Err(e) => {
            return Err(e);
        },
    };
    let formatted = match optional_bounded(formatted, 1024, "name.formatted") {
        Ok(v) => v,
        Err(e) => {
            return Err(e);
        },
    };
    let composed_value = composed(&given_name, &family_name);
    let chosen = match display_name {
        Some(d) => Some(d.exact_clone()),
        None => formatted.exact_clone(),
    };
    let display = match chosen {
        Some(c) => if !c.as_str().is_empty() {
            c
        } else if composed_value.as_str().is_empty() {
            owned(user_name)
        } else {
            composed_value
        },
        None => if composed_value.as_str().is_empty() {
            owned(user_name)
        } else {
            composed_value
        },
    };
    let formatted = match formatted {
        Some(f) => Some(f),
        None => Some(display.exact_clone()),
    };
    *display_name = Some(display);
    *name = Some(
        ScimName {
            formatted,
            given_name,
            family_name,
            middle_name,
            honorific_prefix,
            honorific_suffix,
        },
    );
    Ok(())
}

/// The attributes of a User after normalization, in the order the checks
/// run: schemas; user name (512), external id and display name (1024);
/// emails; names; at most 10 phone numbers, roles, entitlements and
/// addresses; then phone numbers, addresses, roles and entitlements.
pub open spec fn user_attributes_spec(u: ScimUserView) -> Result<ScimUserView, ScimErrorView> {
    match user_schemas_spec(u.schemas, u.enterprise is Some) {
        Err(e) => Err(e),
        Ok(()) => match bounded_spec(u.user_name, 512, "userName"@) {
            Err(e) => Err(e),
            Ok(user_name) => match optional_bounded_spec(u.external_id, 1024, "externalId"@) {
                Err(e) => Err(e),
                Ok(external_id) => match optional_bounded_spec(u.display_name, 1024, "displayName"@) {
                    Err(e) => Err(e),
                    Ok(display_name) => match emails_spec(user_name, u.emails) {
                        Err(e) => Err(e),
                        Ok(emails) => match name_spec(user_name, display_name, u.name) {
                            Err(e) => Err(e),
                            Ok((display, name)) => user_structured_spec(
                                u,
                                ScimUserView {
                                    user_name,
                                    external_id,
                                    display_name: display,
                                    name,
                                    emails,
                                    ..u
                                },
                            ),
                        },
                    },
                },
            },
        },
    }
}

/// The structured attributes of a User after normalization.
pub open spec fn user_structured_spec(original: ScimUserView, u: ScimUserView) -> Result<
    ScimUserView,
    ScimErrorView,
> {
    if original.phone_numbers.len() > 10 || original.roles.len() > 10
        || original.entitlements.len() > 10 || original.addresses.len() > 10 {
        refuse("SCIM structured attributes contain too many values"@)
    } else {
        match values_spec::<ScimPhoneNumber>(u.phone_numbers, "phoneNumbers"@) {
            Err(e) => Err(e),
            Ok(phone_numbers) => match values_spec::<ScimAddress>(u.addresses, "addresses"@) {
                Err(e) => Err(e),
                Ok(addresses) => match values_spec::<ScimRole>(u.roles, "roles"@) {
                    Err(e) => Err(e),
                    Ok(roles) => match values_spec::<ScimEntitlement>(u.entitlements, "entitlements"@) {
                        Err(e) => Err(e),
                        Ok(entitlements) => Ok(
                            ScimUserView { phone_numbers, addresses, roles, entitlements, ..u },
                        ),
                    },
                },
            },
        }
    }
}

/// The largest serialized User that SCIM accepts, in bytes.
pub const MAX_SERIALIZED_USER_BYTES: usize = 65535;

/// A normalized User as it is stored: refused when its serialized form
/// exceeds the limit, else without `meta` and `id`.
pub open spec fn user_completion_spec(u: ScimUserView, serialized_len: nat) -> Result<
    ScimUserView,
    ScimErrorView,
> {
    if serialized_len > MAX_SERIALIZED_USER_BYTES {
        refuse("SCIM User attributes exceed the supported serialized size"@)
    } else {
        Ok(ScimUserView { meta: None, id: None, ..u })
    }
}

impl ScimUser {
    /// Normalizes every attribute of this User.
    #[verifier::rlimit(60)]
    pub fn normalize_attributes(self) -> (r: Result<ScimUser, ScimError>)
        ensures
            outcome(r) == user_attributes_spec(self@),
    {
        let ghost original = self@;
        let mut user = self;
        match validate_user_schemas(&user.schemas, user.enterprise.is_some()) {
            Ok(()) => {},
            Err(e) => {
                return Err(e);
            },
        }
        let user_name = match bounded(user.user_name.exact_clone(), 512, "userName") {
            Ok(v) => v,
            Err(e) => {
                return Err(e);
            },
        };
        user.user_name = user_name;
        let external_id = match optional_bounded(user.external_id.exact_clone(), 1024, "externalId") {
            Ok(v) => v,
            Err(e) => {
                return Err(e);
            },
        };
        user.external_id = external_id;
        let display_name = match optional_bounded(user.display_name.exact_clone(), 1024, "displayName") {
            Ok(v) => v,
            Err(e) => {
                return Err(e);
            },
        };
        user.display_name = display_name;
        match normalize_emails(user.user_name.as_str(), &mut user.emails) {
            Ok(()) => {},
            Err(e) => {
                return Err(e);
            },
        }
        match normalize_name(user.user_name.as_str(), &mut user.display_name, &mut user.name) {
            Ok(()) => {},
            Err(e) => {
                return Err(e);
            },
        }
        assert(user_attributes_spec(original) == user_structured_spec(original, user@));
        if user.phone_numbers.len() > 10 || user.roles.len() > 10 || user.entitlements.len() > 10
            || user.addresses.len() > 10 {
            return Err(invalid(owned("SCIM structured attributes contain too many values")));
        }
        match normalize_values(&mut user.phone_numbers, "phoneNumbers") {
            Ok(()) => {},
            Err(e) => {
                return Err(e);
            },
        }
        match normalize_values(&mut user.addresses, "addresses") {
            Ok(()) => {},
            Err(e) => {
                return Err(e);
            },
        }
        match normalize_values(&mut user.roles, "roles") {
            Ok(()) => {},
            Err(e) => {
                return Err(e);
            },
        }
        match normalize_values(&mut user.entitlements, "entitlements") {
            Ok(()) => {},
            Err(e) => {
                return Err(e);
            },
        }
        Ok(user)
    }

    /// Completes the normalization of a User whose serialized form, with all
    /// its attributes normalized, has `serialized_len` bytes.
    pub fn complete_normalization(self, serialized_len: usize) -> (r: Result<ScimUser, ScimError>)
        ensures
            outcome(r) == user_completion_spec(self@, serialized_len as nat),
    {
        if serialized_len > MAX_SERIALIZED_USER_BYTES {
            return Err(invalid(owned("SCIM User attributes exceed the supported serialized size")));
        }
        let mut user = self;
        user.meta = None;
        user.id = None;
        Ok(user)
    }

    /// The primary email value, else the first one, else the user name.
    pub fn primary_email(&self) -> (r: &str)
        ensures
            r@ == (if exists|i: int| 0 <= i < self.emails@.len() && self.emails@[i].primary == Some(true) {
                self.emails@[choose_first_primary(self.emails@)].value@
            } else if self.emails@.len() > 0 {
                self.emails@[0].value@
            } else {
                self.user_name@
            }),
    {
        let mut i: usize = 0;
        while i < self.emails.len()
            invariant
                i <= self.emails@.len(),
                forall|k: int| 0 <= k < i ==> self.emails@[k].primary != Some(true),
            decreases self.emails@.len() - i,
        {
            if self.emails[i].primary == Some(true) {
                proof {
                    lemma_first_primary(self.emails@, i as int);
                }
                return self.emails[i].value.as_str();
            }
            i = i + 1;
        }
        if self.emails.len() > 0 {
            self.emails[0].value.as_str()
        } else {
            self.user_name.as_str()
        }
    }
}

/// Position of the first primary email value.
pub open spec fn choose_first_primary(emails: Seq<ScimEmail>) -> int {
    choose|i: int|
        0 <= i < emails.len() && emails[i].primary == Some(true) && forall|k: int|
            0 <= k < i ==> emails[k].primary != Some(true)
}

proof fn lemma_first_primary(emails: Seq<ScimEmail>, i: int)
    requires
        0 <= i < emails.len(),
        emails[i].primary == Some(true),
        forall|k: int| 0 <= k < i ==> emails[k].primary != Some(true),
    ensures
        choose_first_primary(emails) == i,
{
    let j = choose_first_primary(emails);
    assert(0 <= j < emails.len() && emails[j].primary == Some(true) && forall|k: int|
        0 <= k < j ==> emails[k].primary != Some(true));
    if j < i {
        assert(emails[j].primary != Some(true));
    } else if j > i {
        assert(emails[i].primary != Some(true));
    }
}

/// The members of a Group without repeated values, each value kept at its
/// first occurrence.
pub open spec fn dedup_members(s: Seq<ScimGroupMemberView>) -> Seq<ScimGroupMemberView>
    decreases s.len(),
{
    if s.len() == 0 {
        s
    } else if exists|i: int| 0 <= i < s.len() - 1 && s[i].value == s.last().value {
        dedup_members(s.drop_last())
    } else {
        dedup_members(s.drop_last()).push(s.last())
    }
}

/// A Group member after normalization: its value bounded to 256 characters,
/// its type (when given) `user` in any ASCII case, written back as `User`,
/// and no reference or display name kept.
pub open spec fn member_entry_spec(m: ScimGroupMemberView) -> Result<
    ScimGroupMemberView,
    ScimErrorView,
> {
    match bounded_spec(m.value, 256, "members.value"@) {
        Err(e) => Err(e),
        Ok(value) => if m.kind is Some && !eq_ignore_ascii_case(m.kind->0, "user"@) {
            refuse("Group members must reference User resources"@)
        } else {
            Ok(
                ScimGroupMemberView {
                    value,
                    reference: None,
                    display: None,
                    kind: Some("User"@),
                },
            )
        },
    }
}

pub open spec fn member_entry_fn() -> spec_fn(ScimGroupMemberView) -> Result<
    ScimGroupMemberView,
    ScimErrorView,
> {
    |m: ScimGroupMemberView| member_entry_spec(m)
}

/// A Group after normalization: only the core Group schema; display name
/// (1024) and external id (1024) bounded; at most 1000 members, repeated
/// values dropped, each member normalized; no `id` or `meta`.
pub open spec fn group_spec(g: ScimGroupView) -> Result<ScimGroupView, ScimErrorView> {
    if g.schemas != seq![SCIM_GROUP_SCHEMA@] {
        refuse("schemas must contain only the core SCIM Group schema"@)
    } else {
        match bounded_spec(g.display_name, 1024, "displayName"@) {
            Err(e) => Err(e),
            Ok(display_name) => match optional_bounded_spec(g.external_id, 1024, "externalId"@) {
                Err(e) => Err(e),
                Ok(external_id) => if g.members.len() > 1000 {
                    refuse("members must contain at most 1000 values"@)
                } else {
                    group_with_members(
                        g.schemas,
                        external_id,
                        display_name,
                        try_map(dedup_members(g.members), member_entry_fn()),
                    )
                },
            },
        }
    }
}

/// A Group with normalized members, or the refusal of one of them.
pub open spec fn group_with_members(
    schemas: Seq<Seq<char>>,
    external_id: Option<Seq<char>>,
    display_name: Seq<char>,
    members: Result<Seq<ScimGroupMemberView>, ScimErrorView>,
) -> Result<ScimGroupView, ScimErrorView> {
    match members {
        Err(e) => Err(e),
        Ok(members) => Ok(
            ScimGroupView { schemas, id: None, external_id, display_name, members, meta: None },
        ),
    }
}

fn normalize_member(m: ScimGroupMember) -> (r: Result<ScimGroupMember, ScimError>)
    ensures
        outcome(r) == member_entry_spec(m@),
{
    let ScimGroupMember { value, reference, display, kind } = m;
    let value = match bounded(value, 256, "members.value") {
        Ok(v) => v,
        Err(e) => {
            return Err(e);
        },
    };
    match &kind {
        Some(k) => {
            if !str_eq_ignore_ascii_case(k.as_str(), "user") {
                return Err(invalid(owned("Group members must reference User resources")));
            }
        },
        None => {},
    }
    Ok(ScimGroupMember { value, reference: None, display: None, kind: Some(owned("User")) })
}

fn dedup_member_values(members: &Vec<ScimGroupMember>) -> (r: Vec<ScimGroupMember>)
    ensures
        r.deep_view() == dedup_members(members.deep_view()),
{
    let ghost s = members.deep_view();
    let mut kept: Vec<ScimGroupMember> = Vec::new();
    let mut j: usize = 0;
    assert(s.take(0) =~= Seq::<ScimGroupMemberView>::empty());
    while j < members.len()
        invariant
            s == members.deep_view(),
            j <= members@.len(),
            kept.deep_view() == dedup_members(s.take(j as int)),
        decreases members@.len() - j,
    {
        let mut seen = false;
        let mut i: usize = 0;
        while i < j
            invariant
                s == members.deep_view(),
                j < members@.len(),
                i <= j,
                seen == (exists|k: int| 0 <= k < i && s[k].value == s[j as int].value),
            decreases j - i,
        {
            assert(s[i as int] == members@[i as int].deep_view());
            assert(s[j as int] == members@[j as int].deep_view());
            if str_eq(members[i].value.as_str(), members[j].value.as_str()) {
                seen = true;
            }
            i = i + 1;
        }
        let ghost t = s.take(j + 1);
        assert(t.drop_last() =~= s.take(j as int));
        assert(t.last() == s[j as int]);
        assert(forall|k: int| 0 <= k < j ==> t[k] == s[k]);
        if !seen {
            let c = members[j].exact_clone();
            let ghost prev = kept.deep_view();
            kept.push(c);
            assert(kept.deep_view() =~= prev.push(c.deep_view()));
        }
        j = j + 1;
    }
    assert(s.take(s.len() as int) =~= s);
    kept
}

impl ScimGroup {
    /// Normalizes this Group.
    pub fn normalize(self) -> (r: Result<ScimGroup, ScimError>)
        ensures
            outcome(r) == group_spec(self@),
    {
        let ghost g = self@;
        let ScimGroup { schemas, id, external_id, display_name, members, meta } = self;
        assert(g.schemas == schemas.deep_view());
        assert(g.members == members.deep_view());
        if !(schemas.len() == 1 && str_eq(schemas[0].as_str(), SCIM_GROUP_SCHEMA)) {
            proof {
                if schemas.deep_view() == seq![SCIM_GROUP_SCHEMA@] {
                    assert(schemas.deep_view()[0] == SCIM_GROUP_SCHEMA@);
                }
            }
            return Err(invalid(owned("schemas must contain only the core SCIM Group schema")));
        }
        assert(schemas.deep_view() =~= seq![SCIM_GROUP_SCHEMA@]);
        let display_name = match bounded(display_name, 1024, "displayName") {
            Ok(v) => v,
            Err(e) => {
                return Err(e);
            },
        };
        let external_id = match optional_bounded(external_id, 1024, "externalId") {
            Ok(v) => v,
            Err(e) => {
                return Err(e);
            },
        };
        if members.len() > 1000 {
            return Err(invalid(owned("members must contain at most 1000 values")));
        }
        let unique = dedup_member_values(&members);
        let ghost b = unique.deep_view();
        let ghost f = member_entry_fn();
        let mut normalized: Vec<ScimGroupMember> = Vec::new();
        proof {
            lemma_try_map_start(b, f);
            assert(normalized.deep_view() =~= Seq::<ScimGroupMemberView>::empty());
        }
        let count = unique.len();
        let mut j: usize = 0;
        while j < count
            invariant
                count == b.len(),
                b == unique.deep_view(),
                f == member_entry_fn(),
                g == self@,
                group_spec(g) == group_with_members(
                    schemas.deep_view(),
                    external_id.deep_view(),
                    display_name@,
                    try_map(b, f),
                ),
                j <= b.len(),
                try_map(b, f) == after(normalized.deep_view(), try_map(b.skip(j as int), f)),
                normalized@.len() == j,
            decreases b.len() - j,
        {
            let e = unique[j].exact_clone();
            proof {
                lemma_try_map_step(b, f, normalized.deep_view(), j as int);
                assert(f(b[j as int]) == member_entry_spec(b[j as int]));
            }
            match normalize_member(e) {
                Ok(n) => {
                    let ghost prev = normalized.deep_view();
                    normalized.push(n);
                    assert(normalized.deep_view() =~= prev.push(n.deep_view()));
                },
                Err(x) => {
                    return Err(x);
                },
            }
            j = j + 1;
        }
        proof {
            lemma_try_map_end(b, f, normalized.deep_view());
        }
        Ok(ScimGroup { schemas, id: None, external_id, display_name, members: normalized, meta: None })
    }
}

} // verus!
