//! Administrative user updates: which permissions an update needs, and the
//! user that results from applying it.

use crate::exact_clone::ExactClone;
use crate::keyed::{as_map, has_key, lemma_lookup_at, lookup, sorted_keys, upsert, Keyed};
use crate::text::owned;
use vstd::prelude::*;

verus! {

/// The fields of an application user that an administrator may change;
/// extra fields map field names to their JSON texts.
#[derive(Clone, Debug)]
pub struct AdminUserFields {
    pub name: String,
    pub email: String,
    pub email_verified: bool,
    pub image: Option<String>,
    pub role: String,
    pub banned: bool,
    pub ban_reason: Option<String>,
    pub ban_expires: Option<i64>,
    pub additional_fields: Vec<Keyed<String>>,
}

/// An administrative update: each field that is present replaces the
/// user's; extra fields are added or replaced one by one.
#[derive(Clone, Debug)]
pub struct AdminUserUpdate {
    pub name: Option<String>,
    pub email: Option<String>,
    pub email_verified: Option<bool>,
    pub image: Option<Option<String>>,
    pub role: Option<String>,
    pub banned: Option<bool>,
    pub ban_reason: Option<Option<String>>,
    pub ban_expires: Option<Option<i64>>,
    pub additional_fields: Vec<Keyed<String>>,
}

pub struct AdminUserFieldsView {
    pub name: Seq<char>,
    pub email: Seq<char>,
    pub email_verified: bool,
    pub image: Option<Seq<char>>,
    pub role: Seq<char>,
    pub banned: bool,
    pub ban_reason: Option<Seq<char>>,
    pub ban_expires: Option<i64>,
    pub additional_fields: Map<Seq<char>, Seq<char>>,
}

pub struct AdminUserUpdateView {
    pub name: Option<Seq<char>>,
    pub email: Option<Seq<char>>,
    pub email_verified: Option<bool>,
    pub image: Option<Option<Seq<char>>>,
    pub role: Option<Seq<char>>,
    pub banned: Option<bool>,
    pub ban_reason: Option<Option<Seq<char>>>,
    pub ban_expires: Option<Option<i64>>,
    pub additional_fields: Map<Seq<char>, Seq<char>>,
}

impl DeepView for AdminUserFields {
    type V = AdminUserFieldsView;

    open spec fn deep_view(&self) -> AdminUserFieldsView {
        AdminUserFieldsView {
            name: self.name@,
            email: self.email@,
            email_verified: self.email_verified,
            image: self.image.deep_view(),
            role: self.role@,
            banned: self.banned,
            ban_reason: self.ban_reason.deep_view(),
            ban_expires: self.ban_expires,
            additional_fields: as_map(self.additional_fields.deep_view()),
        }
    }
}

impl DeepView for AdminUserUpdate {
    type V = AdminUserUpdateView;

    open spec fn deep_view(&self) -> AdminUserUpdateView {
        AdminUserUpdateView {
            name: self.name.deep_view(),
            email: self.email.deep_view(),
            email_verified: self.email_verified,
            image: self.image.deep_view(),
            role: self.role.deep_view(),
            banned: self.banned,
            ban_reason: self.ban_reason.deep_view(),
            ban_expires: self.ban_expires,
            additional_fields: as_map(self.additional_fields.deep_view()),
        }
    }
}

/// The value of a field after an update: the update's where it has one.
pub open spec fn updated<A>(current: A, update: Option<A>) -> A {
    match update {
        Some(x) => x,
        None => current,
    }
}

/// The user that applying `update` to `target` gives.
pub open spec fn applied(target: AdminUserFieldsView, update: AdminUserUpdateView) -> AdminUserFieldsView {
    AdminUserFieldsView {
        name: updated(target.name, update.name),
        email: updated(target.email, update.email),
        email_verified: updated(target.email_verified, update.email_verified),
        image: updated(target.image, update.image),
        role: updated(target.role, update.role),
        banned: updated(target.banned, update.banned),
        ban_reason: updated(target.ban_reason, update.ban_reason),
        ban_expires: updated(target.ban_expires, update.ban_expires),
        additional_fields: target.additional_fields.union_prefer_right(update.additional_fields),
    }
}

/// Whether the extra fields of a user and an update are well formed: each
/// name occurs once, in increasing order.
pub open spec fn fields_sorted(user: &AdminUserFields, update: &AdminUserUpdate) -> bool {
    sorted_keys(user.additional_fields.deep_view()) && sorted_keys(update.additional_fields.deep_view())
}

proof fn lemma_lookup_take_step(u: Seq<(Seq<char>, Seq<char>)>, i: int, k: Seq<char>)
    requires
        sorted_keys(u),
        0 <= i < u.len(),
    ensures
        lookup(u.take(i + 1), k) == if k == u[i].0 {
            Some(u[i].1)
        } else {
            lookup(u.take(i), k)
        },
{
    let a = u.take(i);
    let b = u.take(i + 1);
    assert(sorted_keys(a));
    assert(sorted_keys(b));
    assert(b[i] == u[i]);
    lemma_lookup_at(b, i);
    if k != u[i].0 {
        if has_key(a, k) {
            let j = choose|j: int| 0 <= j < a.len() && a[j].0 == k;
            assert(b[j] == a[j]);
            lemma_lookup_at(a, j);
            lemma_lookup_at(b, j);
        } else {
            if has_key(b, k) {
                let j = choose|j: int| 0 <= j < b.len() && b[j].0 == k;
                assert(j != i);
                assert(a[j] == b[j]);
            }
        }
    }
}

/// Applies `update` to a copy of `target`.
pub fn admin_update_candidate(target: &AdminUserFields, update: &AdminUserUpdate) -> (r: AdminUserFields)
    requires
        fields_sorted(target, update),
    ensures
        sorted_keys(r.additional_fields.deep_view()),
        r.deep_view() == applied(target.deep_view(), update.deep_view()),
{
    let mut user = AdminUserFields {
        name: match &update.name {
            Some(v) => v.exact_clone(),
            None => target.name.exact_clone(),
        },
        email: match &update.email {
            Some(v) => v.exact_clone(),
            None => target.email.exact_clone(),
        },
        email_verified: match update.email_verified {
            Some(v) => v,
            None => target.email_verified,
        },
        image: match &update.image {
            Some(v) => v.exact_clone(),
            None => target.image.exact_clone(),
        },
        role: match &update.role {
            Some(v) => v.exact_clone(),
            None => target.role.exact_clone(),
        },
        banned: match update.banned {
            Some(v) => v,
            None => target.banned,
        },
        ban_reason: match &update.ban_reason {
            Some(v) => v.exact_clone(),
            None => target.ban_reason.exact_clone(),
        },
        ban_expires: match update.ban_expires {
            Some(v) => v,
            None => target.ban_expires,
        },
        additional_fields: target.additional_fields.exact_clone(),
    };
    let ghost t = target.additional_fields.deep_view();
    let ghost u = update.additional_fields.deep_view();
    let mut i: usize = 0;
    while i < update.additional_fields.len()
        invariant
            t == target.additional_fields.deep_view(),
            u == update.additional_fields.deep_view(),
            sorted_keys(u),
            i <= u.len(),
            sorted_keys(user.additional_fields.deep_view()),
            forall|k: Seq<char>|
                #[trigger] lookup(user.additional_fields.deep_view(), k) == if has_key(u.take(i as int), k) {
                    lookup(u.take(i as int), k)
                } else {
                    lookup(t, k)
                },
            user.name@ == updated(target.name@, update.name.deep_view()),
            user.email@ == updated(target.email@, update.email.deep_view()),
            user.email_verified == updated(target.email_verified, update.email_verified),
            user.image.deep_view() == updated(target.image.deep_view(), update.image.deep_view()),
            user.role@ == updated(target.role@, update.role.deep_view()),
            user.banned == updated(target.banned, update.banned),
            user.ban_reason.deep_view() == updated(target.ban_reason.deep_view(), update.ban_reason.deep_view()),
            user.ban_expires == updated(target.ban_expires, update.ban_expires),
        decreases u.len() - i,
    {
        let entry = &update.additional_fields[i];
        assert(u[i as int] == (entry.key@, entry.value@));
        upsert(&mut user.additional_fields, entry.key.exact_clone(), entry.value.exact_clone());
        proof {
            assert forall|k: Seq<char>|
                #[trigger] lookup(user.additional_fields.deep_view(), k) == if has_key(u.take(i + 1), k) {
                    lookup(u.take(i + 1), k)
                } else {
                    lookup(t, k)
                } by {
                lemma_lookup_take_step(u, i as int, k);
                assert(u.take(i + 1)[i as int] == u[i as int]);
                if k != u[i as int].0 {
                    let a = u.take(i as int);
                    let b = u.take(i + 1);
                    assert(has_key(b, k) == has_key(a, k)) by {
                        if has_key(b, k) {
                            let j = choose|j: int| 0 <= j < b.len() && b[j].0 == k;
                            assert(a[j] == b[j]);
                        }
                        if has_key(a, k) {
                            let j = choose|j: int| 0 <= j < a.len() && a[j].0 == k;
                            assert(b[j] == a[j]);
                        }
                    }
                }
            }
        }
        i = i + 1;
    }
    proof {
        assert(u.take(i as int) =~= u);
        let m = as_map(t).union_prefer_right(as_map(u));
        let got = as_map(user.additional_fields.deep_view());
        assert forall|k: Seq<char>| got.dom().contains(k) == m.dom().contains(k) by {
            assert(lookup(user.additional_fields.deep_view(), k) == if has_key(u, k) {
                lookup(u, k)
            } else {
                lookup(t, k)
            });
        }
        assert forall|k: Seq<char>| got.dom().contains(k) implies got[k] == m[k] by {
            assert(lookup(user.additional_fields.deep_view(), k) == if has_key(u, k) {
                lookup(u, k)
            } else {
                lookup(t, k)
            });
        }
        assert(got =~= m);
    }
    user
}

/// The update that sets every field of a user to the value in `user`.
pub open spec fn full_update(user: AdminUserFieldsView) -> AdminUserUpdateView {
    AdminUserUpdateView {
        name: Some(user.name),
        email: Some(user.email),
        email_verified: Some(user.email_verified),
        image: Some(user.image),
        role: Some(user.role),
        banned: Some(user.banned),
        ban_reason: Some(user.ban_reason),
        ban_expires: Some(user.ban_expires),
        additional_fields: user.additional_fields,
    }
}

/// The update that writes a prepared candidate user in full.
pub fn admin_update_from_candidate(user: AdminUserFields) -> (r: AdminUserUpdate)
    ensures
        r.deep_view() == full_update(user.deep_view()),
        r.additional_fields.deep_view() == user.additional_fields.deep_view(),
{
    AdminUserUpdate {
        name: Some(user.name),
        email: Some(user.email),
        email_verified: Some(user.email_verified),
        image: Some(user.image),
        role: Some(user.role),
        banned: Some(user.banned),
        ban_reason: Some(user.ban_reason),
        ban_expires: Some(user.ban_expires),
        additional_fields: user.additional_fields,
    }
}

/// Writing the candidate of an update in full over the same user gives the
/// candidate: the stored user is what the administrator's update made of
/// it.
pub proof fn law_full_candidate_write_gives_candidate(target: AdminUserFieldsView, update: AdminUserUpdateView)
    ensures
        applied(target, full_update(applied(target, update))) == applied(target, update),
{
    let c = applied(target, update);
    assert(target.additional_fields.union_prefer_right(c.additional_fields) =~= c.additional_fields);
}

/// The permissions that an update needs beyond `update`, in the order they
/// are checked: `set-role` to change the role, `set-email` to change the
/// email or its verification, `ban` to change anything about a ban.
pub open spec fn update_permissions(update: AdminUserUpdateView) -> Seq<Seq<char>> {
    (if update.role is Some { seq!["set-role"@] } else { Seq::empty() }) + (if update.email is Some
        || update.email_verified is Some { seq!["set-email"@] } else { Seq::empty() }) + (if update.banned is Some
        || update.ban_reason is Some || update.ban_expires is Some { seq!["ban"@] } else { Seq::empty() })
}

/// The permissions that an update needs beyond `update`.
pub fn required_update_permissions(update: &AdminUserUpdate) -> (r: Vec<String>)
    ensures
        r.deep_view() == update_permissions(update.deep_view()),
{
    let mut r: Vec<String> = Vec::new();
    if update.role.is_some() {
        r.push(owned("set-role"));
    }
    let ghost first = r.deep_view();
    if update.email.is_some() || update.email_verified.is_some() {
        r.push(owned("set-email"));
    }
    let ghost second = r.deep_view();
    if update.banned.is_some() || update.ban_reason.is_some() || update.ban_expires.is_some() {
        r.push(owned("ban"));
    }
    proof {
        let v = update.deep_view();
        let a: Seq<Seq<char>> = if v.role is Some { seq!["set-role"@] } else { Seq::empty() };
        let b: Seq<Seq<char>> = if v.email is Some || v.email_verified is Some { seq!["set-email"@] } else { Seq::empty() };
        let c: Seq<Seq<char>> = if v.banned is Some || v.ban_reason is Some || v.ban_expires is Some { seq!["ban"@] } else { Seq::empty() };
        assert(first =~= a);
        assert(second =~= a + b);
        assert(r.deep_view() =~= a + b + c);
    }
    r
}

/// Whether an update bans the administrator who makes it, which is refused.
pub fn bans_self(update: &AdminUserUpdate, actor_id: &str, target_id: &str) -> (r: bool)
    ensures
        r == (update.banned == Some(true) && actor_id@ == target_id@),
{
    match update.banned {
        Some(true) => crate::text::str_eq(actor_id, target_id),
        _ => false,
    }
}

} // verus!
