//! Normalization of the multi-valued structured attributes of a SCIM User:
//! phone numbers, addresses, roles and entitlements.

use crate::exact_clone::ExactClone;
use crate::scim::error::{invalid, ScimError, ScimErrorView};
use crate::scim::model::{ScimAddress, ScimAddressView, ScimEnterpriseUser, ScimEnterpriseUserView, ScimEntitlement, ScimManager, ScimPhoneNumber, ScimPhoneNumberView, ScimRole, ScimRoleView};
use crate::scim::normalize::{after, bounded, bounded_spec, checked, count_where, lemma_count_where_push, lemma_try_map_end, lemma_try_map_start, lemma_try_map_step, optional_bounded, optional_bounded_spec, outcome, refuse, try_map};
use crate::text::{ascii_lowercase, concat, owned, str_eq, to_ascii_lowercase};
use vstd::prelude::*;

verus! {

/// A type name: bounded to 256 characters and lower-cased (ASCII).
pub open spec fn type_spec(value: Option<Seq<char>>, field: Seq<char>) -> Result<
    Option<Seq<char>>,
    ScimErrorView,
> {
    match optional_bounded_spec(value, 256, field) {
        Err(e) => Err(e),
        Ok(None) => Ok(None),
        Ok(Some(t)) => Ok(Some(ascii_lowercase(t))),
    }
}

pub fn normalize_type(value: Option<String>, field: &str) -> (r: Result<Option<String>, ScimError>)
    ensures
        outcome(r) == type_spec(value.deep_view(), field@),
{
    match optional_bounded(value, 256, field) {
        Err(e) => Err(e),
        Ok(None) => Ok(None),
        Ok(Some(t)) => Ok(Some(to_ascii_lowercase(t.as_str()))),
    }
}

/// A required value: bounded as an optional one that is present.
pub fn required(value: String, maximum: usize, field: &str) -> (r: Result<String, ScimError>)
    ensures
        outcome(r) == bounded_spec(value@, maximum as nat, field@),
{
    bounded(value, maximum, field)
}

/// One multi-valued attribute entry that carries a `primary` flag and a type.
pub trait StructuredValue: ExactClone + Sized {
    /// The entry after normalization, for the attribute named `field`.
    spec fn entry_spec(v: Self::V, field: Seq<char>) -> Result<Self::V, ScimErrorView>;

    spec fn primary_of(v: Self::V) -> Option<bool>;

    spec fn kind_of(v: Self::V) -> Option<Seq<char>>;

    fn normalize_entry(self, field: &str) -> (r: Result<Self, ScimError>)
        ensures
            outcome(r) == Self::entry_spec(self.deep_view(), field@),
    ;

    fn primary(&self) -> (p: Option<bool>)
        ensures
            p == Self::primary_of(self.deep_view()),
    ;

    fn kind(&self) -> (k: Option<&String>)
        ensures
            match k {
                Some(s) => Self::kind_of(self.deep_view()) == Some(s@),
                None => Self::kind_of(self.deep_view()) is None,
            },
    ;
}

pub open spec fn entry_fn<T: StructuredValue>(field: Seq<char>) -> spec_fn(T::V) -> Result<
    T::V,
    ScimErrorView,
> {
    |v: T::V| T::entry_spec(v, field)
}

pub open spec fn primary_pred<T: StructuredValue>() -> spec_fn(T::V) -> bool {
    |v: T::V| T::primary_of(v) == Some(true)
}

/// Whether the entry at `j` repeats the type of an earlier entry (ASCII
/// case-insensitively).
pub open spec fn repeats_type<T: StructuredValue>(s: Seq<T::V>, j: int) -> bool {
    T::kind_of(s[j]) is Some && exists|i: int|
        0 <= i < j && T::kind_of(s[i]) is Some && ascii_lowercase(T::kind_of(s[i])->0)
            == ascii_lowercase(T::kind_of(s[j])->0)
}

/// The primary and type rules of a multi-valued attribute: at most one
/// primary entry, and no type defined twice.
pub open spec fn primary_types_spec<T: StructuredValue>(s: Seq<T::V>, field: Seq<char>) -> Result<
    (),
    ScimErrorView,
> {
    if count_where(s, primary_pred::<T>()) > 1 {
        refuse(field + " cannot contain multiple primary values"@)
    } else if exists|j: int| 0 <= j < s.len() && repeats_type::<T>(s, j) {
        refuse(field + " cannot contain duplicate defined types"@)
    } else {
        Ok(())
    }
}

/// All entries normalized, then the primary and type rules checked.
pub open spec fn values_spec<T: StructuredValue>(s: Seq<T::V>, field: Seq<char>) -> Result<
    Seq<T::V>,
    ScimErrorView,
> {
    match try_map(s, entry_fn::<T>(field)) {
        Err(e) => Err(e),
        Ok(n) => match primary_types_spec::<T>(n, field) {
            Err(e) => Err(e),
            Ok(()) => Ok(n),
        },
    }
}

fn opt_ascii_eq(a: &String, b: &String) -> (r: bool)
    ensures
        r == (ascii_lowercase(a@) == ascii_lowercase(b@)),
{
    let la = to_ascii_lowercase(a.as_str());
    let lb = to_ascii_lowercase(b.as_str());
    str_eq(la.as_str(), lb.as_str())
}

pub fn validate_primary_types<T: StructuredValue>(values: &Vec<T>, field: &str) -> (r: Result<
    (),
    ScimError,
>)
    ensures
        checked(r) == primary_types_spec::<T>(values.deep_view(), field@),
{
    let ghost s = values.deep_view();
    let mut primaries: usize = 0;
    let mut i: usize = 0;
    while i < values.len()
        invariant
            s == values.deep_view(),
            i <= values@.len(),
            primaries == count_where(s.take(i as int), primary_pred::<T>()),
            primaries <= i,
        decreases values@.len() - i,
    {
        proof {
            assert(s.take(i + 1) =~= s.take(i as int).push(s[i as int]));
            lemma_count_where_push(s.take(i as int), primary_pred::<T>(), s[i as int]);
        }
        if values[i].primary() == Some(true) {
            primaries = primaries + 1;
        }
        i = i + 1;
    }
    assert(s.take(s.len() as int) =~= s);
    if primaries > 1 {
        return Err(invalid(concat(field, " cannot contain multiple primary values")));
    }
    let mut j: usize = 0;
    while j < values.len()
        invariant
            s == values.deep_view(),
            count_where(s, primary_pred::<T>()) <= 1,
            j <= values@.len(),
            forall|k: int| 0 <= k < j ==> !repeats_type::<T>(s, k),
        decreases values@.len() - j,
    {
        match values[j].kind() {
            None => {},
            Some(kj) => {
                let mut i: usize = 0;
                while i < j
                    invariant
                        s == values.deep_view(),
                        count_where(s, primary_pred::<T>()) <= 1,
                        j < values@.len(),
                        i <= j,
                        T::kind_of(s[j as int]) == Some(kj@),
                        forall|k: int|
                            0 <= k < i ==> !(T::kind_of(s[k]) is Some && ascii_lowercase(
                                T::kind_of(s[k])->0,
                            ) == ascii_lowercase(kj@)),
                    decreases j - i,
                {
                    assert(s[i as int] == values@[i as int].deep_view());
                    match values[i].kind() {
                        None => {},
                        Some(ki) => {
                            if opt_ascii_eq(ki, kj) {
                                assert(s[i as int] == values@[i as int].deep_view());
                                assert(T::kind_of(s[i as int]) == Some(ki@));
                                assert(repeats_type::<T>(s, j as int));
                                return Err(
                                    invalid(concat(field, " cannot contain duplicate defined types")),
                                );
                            }
                        },
                    }
                    i = i + 1;
                }
            },
        }
        j = j + 1;
    }
    Ok(())
}

/// Normalizes every entry of a multi-valued attribute named `field`, then
/// checks its primary and type rules.
pub fn normalize_values<T: StructuredValue>(values: &mut Vec<T>, field: &str) -> (r: Result<
    (),
    ScimError,
>)
    ensures
        match values_spec::<T>(old(values).deep_view(), field@) {
            Ok(v) => r is Ok && final(values).deep_view() == v,
            Err(x) => r matches Err(e) && e@ == x,
        },
{
    let ghost b = values.deep_view();
    let ghost f = entry_fn::<T>(field@);
    let mut normalized: Vec<T> = Vec::new();
    proof {
        lemma_try_map_start(b, f);
        assert(normalized.deep_view() =~= Seq::<T::V>::empty());
    }
    let count = values.len();
    let mut j: usize = 0;
    while j < count
        invariant
            count == b.len(),
            b == values.deep_view(),
            b == old(values).deep_view(),
            f == entry_fn::<T>(field@),
            j <= b.len(),
            try_map(b, f) == after(normalized.deep_view(), try_map(b.skip(j as int), f)),
            normalized@.len() == j,
        decreases b.len() - j,
    {
        let e = values[j].exact_clone();
        proof {
            lemma_try_map_step(b, f, normalized.deep_view(), j as int);
            assert(f(b[j as int]) == T::entry_spec(b[j as int], field@));
        }
        match e.normalize_entry(field) {
            Ok(n) => {
                let ghost prev = normalized.deep_view();
                normalized.push(n);
                assert(normalized.deep_view() =~= prev.push(n.deep_view()));
            },
            Err(x) => {
                return Err(x);
            },
        }
        j = j + 1;
    }
    proof {
        lemma_try_map_end(b, f, normalized.deep_view());
    }
    match validate_primary_types(&normalized, field) {
        Ok(()) => {},
        Err(x) => {
            return Err(x);
        },
    }
    *values = normalized;
    Ok(())
}

impl StructuredValue for ScimPhoneNumber {
    open spec fn entry_spec(v: ScimPhoneNumberView, field: Seq<char>) -> Result<
        ScimPhoneNumberView,
        ScimErrorView,
    > {
        match bounded_spec(v.value, 1024, field + ".value"@) {
            Err(e) => Err(e),
            Ok(value) => match type_spec(v.kind, field + ".type"@) {
                Err(e) => Err(e),
                Ok(kind) => Ok(ScimPhoneNumberView { value, kind, primary: v.primary }),
            },
        }
    }

    open spec fn primary_of(v: ScimPhoneNumberView) -> Option<bool> {
        v.primary
    }

    open spec fn kind_of(v: ScimPhoneNumberView) -> Option<Seq<char>> {
        v.kind
    }

    fn normalize_entry(self, field: &str) -> (r: Result<ScimPhoneNumber, ScimError>) {
        let ScimPhoneNumber { value, kind, primary } = self;
        let value_field = concat(field, ".value");
        let value = match required(value, 1024, value_field.as_str()) {
            Ok(v) => v,
            Err(e) => {
                return Err(e);
            },
        };
        let type_field = concat(field, ".type");
        let kind = match normalize_type(kind, type_field.as_str()) {
            Ok(k) => k,
            Err(e) => {
                return Err(e);
            },
        };
        Ok(ScimPhoneNumber { value, kind, primary })
    }

    fn primary(&self) -> (p: Option<bool>) {
        self.primary
    }

    fn kind(&self) -> (k: Option<&String>) {
        match &self.kind {
            Some(s) => Some(s),
            None => None,
        }
    }
}

/// A role or entitlement entry after normalization.
pub open spec fn role_entry_spec(v: ScimRoleView, field: Seq<char>) -> Result<
    ScimRoleView,
    ScimErrorView,
> {
    match bounded_spec(v.value, 1024, field + ".value"@) {
        Err(e) => Err(e),
        Ok(value) => match optional_bounded_spec(v.display, 1024, field + ".display"@) {
            Err(e) => Err(e),
            Ok(display) => match type_spec(v.kind, field + ".type"@) {
                Err(e) => Err(e),
                Ok(kind) => Ok(ScimRoleView { value, display, kind, primary: v.primary }),
            },
        },
    }
}

impl StructuredValue for ScimRole {
    open spec fn entry_spec(v: ScimRoleView, field: Seq<char>) -> Result<ScimRoleView, ScimErrorView> {
        role_entry_spec(v, field)
    }

    open spec fn primary_of(v: ScimRoleView) -> Option<bool> {
        v.primary
    }

    open spec fn kind_of(v: ScimRoleView) -> Option<Seq<char>> {
        v.kind
    }

    fn normalize_entry(self, field: &str) -> (r: Result<ScimRole, ScimError>) {
        let ScimRole { value, display, kind, primary } = self;
        let value_field = concat(field, ".value");
        let value = match required(value, 1024, value_field.as_str()) {
            Ok(v) => v,
            Err(e) => {
                return Err(e);
            },
        };
        let display_field = concat(field, ".display");
        let display = match optional_bounded(display, 1024, display_field.as_str()) {
            Ok(d) => d,
            Err(e) => {
                return Err(e);
            },
        };
        let type_field = concat(field, ".type");
        let kind = match normalize_type(kind, type_field.as_str()) {
            Ok(k) => k,
            Err(e) => {
                return Err(e);
            },
        };
        Ok(ScimRole { value, display, kind, primary })
    }

    fn primary(&self) -> (p: Option<bool>) {
        self.primary
    }

    fn kind(&self) -> (k: Option<&String>) {
        match &self.kind {
            Some(s) => Some(s),
            None => None,
        }
    }
}

impl StructuredValue for ScimEntitlement {
    open spec fn entry_spec(v: ScimRoleView, field: Seq<char>) -> Result<ScimRoleView, ScimErrorView> {
        role_entry_spec(v, field)
    }

    open spec fn primary_of(v: ScimRoleView) -> Option<bool> {
        v.primary
    }

    open spec fn kind_of(v: ScimRoleView) -> Option<Seq<char>> {
        v.kind
    }

    fn normalize_entry(self, field: &str) -> (r: Result<ScimEntitlement, ScimError>) {
        let ScimEntitlement { value, display, kind, primary } = self;
        let value_field = concat(field, ".value");
        let value = match required(value, 1024, value_field.as_str()) {
            Ok(v) => v,
            Err(e) => {
                return Err(e);
            },
        };
        let display_field = concat(field, ".display");
        let display = match optional_bounded(display, 1024, display_field.as_str()) {
            Ok(d) => d,
            Err(e) => {
                return Err(e);
            },
        };
        let type_field = concat(field, ".type");
        let kind = match normalize_type(kind, type_field.as_str()) {
            Ok(k) => k,
            Err(e) => {
                return Err(e);
            },
        };
        Ok(ScimEntitlement { value, display, kind, primary })
    }

    fn primary(&self) -> (p: Option<bool>) {
        self.primary
    }

    fn kind(&self) -> (k: Option<&String>) {
        match &self.kind {
            Some(s) => Some(s),
            None => None,
        }
    }
}

/// An address entry after normalization: each part bounded (1024 characters
/// for the formatted and street parts, 256 for the others), the type
/// normalized, and at least one part present.
pub open spec fn address_entry_spec(v: ScimAddressView, field: Seq<char>) -> Result<
    ScimAddressView,
    ScimErrorView,
> {
    match optional_bounded_spec(v.formatted, 1024, field + ".formatted"@) {
        Err(e) => Err(e),
        Ok(formatted) => match optional_bounded_spec(v.street_address, 1024, field + ".streetAddress"@) {
            Err(e) => Err(e),
            Ok(street_address) => match optional_bounded_spec(v.locality, 256, field + ".locality"@) {
                Err(e) => Err(e),
                Ok(locality) => match optional_bounded_spec(v.region, 256, field + ".region"@) {
                    Err(e) => Err(e),
                    Ok(region) => match optional_bounded_spec(v.postal_code, 256, field + ".postalCode"@) {
                        Err(e) => Err(e),
                        Ok(postal_code) => match optional_bounded_spec(v.country, 256, field + ".country"@) {
                            Err(e) => Err(e),
                            Ok(country) => match type_spec(v.kind, field + ".type"@) {
                                Err(e) => Err(e),
                                Ok(kind) => if formatted is None && street_address is None
                                    && locality is None && region is None && postal_code is None
                                    && country is None {
                                    refuse("addresses must contain at least one address value"@)
                                } else {
                                    Ok(
                                        ScimAddressView {
                                            formatted,
                                            street_address,
                                            locality,
                                            region,
                                            postal_code,
                                            country,
                                            kind,
                                            primary: v.primary,
                                        },
                                    )
                                },
                            },
                        },
                    },
                },
            },
        },
    }
}

impl StructuredValue for ScimAddress {
    open spec fn entry_spec(v: ScimAddressView, field: Seq<char>) -> Result<
        ScimAddressView,
        ScimErrorView,
    > {
        address_entry_spec(v, field)
    }

    open spec fn primary_of(v: ScimAddressView) -> Option<bool> {
        v.primary
    }

    open spec fn kind_of(v: ScimAddressView) -> Option<Seq<char>> {
        v.kind
    }

    fn normalize_entry(self, field: &str) -> (r: Result<ScimAddress, ScimError>) {
        let ScimAddress {
            formatted,
            street_address,
            locality,
            region,
            postal_code,
            country,
            kind,
            primary,
        } = self;
        let name = concat(field, ".formatted");
        let formatted = match optional_bounded(formatted, 1024, name.as_str()) {
            Ok(v) => v,
            Err(e) => {
                return Err(e);
            },
        };
        let name = concat(field, ".streetAddress");
        let street_address = match optional_bounded(street_address, 1024, name.as_str()) {
            Ok(v) => v,
            Err(e) => {
                return Err(e);
            },
        };
        let name = concat(field, ".locality");
        let locality = match optional_bounded(locality, 256, name.as_str()) {
            Ok(v) => v,
            Err(e) => {
                return Err(e);
            },
        };
        let name = concat(field, ".region");
        let region = match optional_bounded(region, 256, name.as_str()) {
            Ok(v) => v,
            Err(e) => {
                return Err(e);
            },
        };
        let name = concat(field, ".postalCode");
        let postal_code = match optional_bounded(postal_code, 256, name.as_str()) {
            Ok(v) => v,
            Err(e) => {
                return Err(e);
            },
        };
        let name = concat(field, ".country");
        let country = match optional_bounded(country, 256, name.as_str()) {
            Ok(v) => v,
            Err(e) => {
                return Err(e);
            },
        };
        let name = concat(field, ".type");
        let kind = match normalize_type(kind, name.as_str()) {
            Ok(v) => v,
            Err(e) => {
                return Err(e);
            },
        };
        if formatted.is_none() && street_address.is_none() && locality.is_none() && region.is_none()
            && postal_code.is_none() && country.is_none() {
            return Err(invalid(owned("addresses must contain at least one address value")));
        }
        Ok(ScimAddress {
            formatted,
            street_address,
            locality,
            region,
            postal_code,
            country,
            kind,
            primary,
        })
    }

    fn primary(&self) -> (p: Option<bool>) {
        self.primary
    }

    fn kind(&self) -> (k: Option<&String>) {
        match &self.kind {
            Some(s) => Some(s),
            None => None,
        }
    }
}

/// The Enterprise User extension after normalization: each attribute bounded
/// (256 characters for the employee number and cost center, 1024 for the
/// organization, division and department), and a manager holding a value
/// (256) or a reference (2048).
pub open spec fn enterprise_spec(e: Option<ScimEnterpriseUserView>) -> Result<
    Option<ScimEnterpriseUserView>,
    ScimErrorView,
> {
    match e {
        None => Ok(None),
        Some(v) => match optional_bounded_spec(v.employee_number, 256, "employeeNumber"@) {
            Err(x) => Err(x),
            Ok(employee_number) => match optional_bounded_spec(v.cost_center, 256, "costCenter"@) {
                Err(x) => Err(x),
                Ok(cost_center) => match optional_bounded_spec(v.organization, 1024, "organization"@) {
                    Err(x) => Err(x),
                    Ok(organization) => match optional_bounded_spec(v.division, 1024, "division"@) {
                        Err(x) => Err(x),
                        Ok(division) => match optional_bounded_spec(v.department, 1024, "department"@) {
                            Err(x) => Err(x),
                            Ok(department) => match v.manager {
                                None => Ok(
                                    Some(
                                        ScimEnterpriseUserView {
                                            employee_number,
                                            cost_center,
                                            organization,
                                            division,
                                            department,
                                            manager: None,
                                        },
                                    ),
                                ),
                                Some(m) => match optional_bounded_spec(m.value, 256, "manager.value"@) {
                                    Err(x) => Err(x),
                                    Ok(value) => match optional_bounded_spec(m.reference, 2048, "manager.$ref"@) {
                                        Err(x) => Err(x),
                                        Ok(reference) => if value is None && reference is None {
                                            refuse("manager must contain value or $ref"@)
                                        } else {
                                            Ok(
                                                Some(
                                                    ScimEnterpriseUserView {
                                                        employee_number,
                                                        cost_center,
                                                        organization,
                                                        division,
                                                        department,
                                                        manager: Some(crate::scim::model::ScimManagerView { value, reference }),
                                                    },
                                                ),
                                            )
                                        },
                                    },
                                },
                            },
                        },
                    },
                },
            },
        },
    }
}

pub fn normalize_enterprise(enterprise: &mut Option<ScimEnterpriseUser>) -> (r: Result<(), ScimError>)
    ensures
        match enterprise_spec(old(enterprise).deep_view()) {
            Ok(v) => r is Ok && final(enterprise).deep_view() == v,
            Err(x) => r matches Err(e) && e@ == x,
        },
{
    let current = match enterprise.take() {
        None => {
            return Ok(());
        },
        Some(v) => v,
    };
    let ScimEnterpriseUser {
        employee_number,
        cost_center,
        organization,
        division,
        department,
        manager,
    } = current;
    let employee_number = match optional_bounded(employee_number, 256, "employeeNumber") {
        Ok(v) => v,
        Err(e) => {
            return Err(e);
        },
    };
    let cost_center = match optional_bounded(cost_center, 256, "costCenter") {
        Ok(v) => v,
        Err(e) => {
            return Err(e);
        },
    };
    let organization = match optional_bounded(organization, 1024, "organization") {
        Ok(v) => v,
        Err(e) => {
            return Err(e);
        },
    };
    let division = match optional_bounded(division, 1024, "division") {
        Ok(v) => v,
        Err(e) => {
            return Err(e);
        },
    };
    let department = match optional_bounded(department, 1024, "department") {
        Ok(v) => v,
        Err(e) => {
            return Err(e);
        },
    };
    let manager = match manager {
        None => None,
        Some(m) => {
            let ScimManager { value, reference } = m;
            let value = match optional_bounded(value, 256, "manager.value") {
                Ok(v) => v,
                Err(e) => {
                    return Err(e);
                },
            };
            let reference = match optional_bounded(reference, 2048, "manager.$ref") {
                Ok(v) => v,
                Err(e) => {
                    return Err(e);
                },
            };
            if value.is_none() && reference.is_none() {
                return Err(invalid(owned("manager must contain value or $ref")));
            }
            Some(ScimManager { value, reference })
        },
    };
    *enterprise = Some(
        ScimEnterpriseUser { employee_number, cost_center, organization, division, department, manager },
    );
    Ok(())
}

} // verus!
