//! The in-memory SCIM store: bindings, users, groups, identity tombstones
//! and managed connections with their credentials and events.
//!
//! Users, groups, bindings, managed connections and managed credentials are
//! kept in key order (the order of `String`), so that scans meet them in the
//! order an ordered map would give.

use crate::exact_clone::ExactClone;
use crate::keyed::{as_map, find_key, lookup, remove_all, remove_key, sorted_keys, upsert, Keyed};
use crate::scim::error::ScimStoreError;
use crate::scim::managed::{ScimManagedConnection, ScimManagedConnectionEvent, ScimManagedConnectionEventView, ScimManagedConnectionView, ScimManagedCredential, ScimManagedCredentialView};
use crate::scim::model::{ScimGroup, ScimGroupMember, ScimGroupMemberView, ScimGroupView, ScimUser};
use crate::scim::normalize::{count_where, lemma_count_where_insert, lemma_count_where_push, lemma_count_where_update, opt_str_eq};
use crate::sorting::{sort_by_keys, stably_sorted, SortPart, SortPartV};
use crate::scim::store::{ScimConnectionBinding, ScimConnectionBindingView, ScimTombstone, ScimTombstoneView, StoredScimGroup, StoredScimGroupView, StoredScimUser, StoredScimUserView};
use crate::text::{eq_ignore_ascii_case, owned, str_eq, str_eq_ignore_ascii_case};
use vstd::prelude::*;

verus! {

/// The parts of the store's state.
pub enum StoreField {
    Bindings,
    Users,
    Groups,
    Tombstones,
    CreationRequests,
    Connections,
    Credentials,
    Events,
}

/// The value of the store: keyed collections as entries in key order.
pub struct ScimStoreModel {
    pub bindings: Seq<(Seq<char>, ScimConnectionBindingView)>,
    pub users: Seq<(Seq<char>, StoredScimUserView)>,
    pub groups: Seq<(Seq<char>, StoredScimGroupView)>,
    pub tombstones: Seq<(Seq<char>, Seq<(Seq<char>, ScimTombstoneView)>)>,
    pub creation_requests: Seq<Seq<char>>,
    pub connections: Seq<(Seq<char>, ScimManagedConnectionView)>,
    pub credentials: Seq<(Seq<char>, ScimManagedCredentialView)>,
    pub events: Seq<ScimManagedConnectionEventView>,
}

impl ScimStoreModel {
    /// Every part outside `fields` is the same in `self` and `other`.
    pub open spec fn changes_only(self, other: ScimStoreModel, fields: Set<StoreField>) -> bool {
        &&& (!fields.contains(StoreField::Bindings) ==> other.bindings == self.bindings)
        &&& (!fields.contains(StoreField::Users) ==> other.users == self.users)
        &&& (!fields.contains(StoreField::Groups) ==> other.groups == self.groups)
        &&& (!fields.contains(StoreField::Tombstones) ==> other.tombstones == self.tombstones)
        &&& (!fields.contains(StoreField::CreationRequests) ==> other.creation_requests
            == self.creation_requests)
        &&& (!fields.contains(StoreField::Connections) ==> other.connections == self.connections)
        &&& (!fields.contains(StoreField::Credentials) ==> other.credentials == self.credentials)
        &&& (!fields.contains(StoreField::Events) ==> other.events == self.events)
    }

    /// Every keyed collection is in strictly increasing key order.
    pub open spec fn wf(self) -> bool {
        &&& sorted_keys(self.bindings)
        &&& sorted_keys(self.users)
        &&& sorted_keys(self.groups)
        &&& sorted_keys(self.tombstones)
        &&& forall|i: int| 0 <= i < self.tombstones.len() ==> sorted_keys(#[trigger] self.tombstones[i].1)
        &&& sorted_keys(self.connections)
        &&& sorted_keys(self.credentials)
    }
}

/// The store's state.
pub struct MemoryScimStore {
    pub bindings: Vec<Keyed<ScimConnectionBinding>>,
    pub users: Vec<Keyed<StoredScimUser>>,
    pub groups: Vec<Keyed<StoredScimGroup>>,
    pub tombstones: Vec<Keyed<Vec<Keyed<ScimTombstone>>>>,
    pub creation_requests: Vec<String>,
    pub managed_connections: Vec<Keyed<ScimManagedConnection>>,
    pub managed_credentials: Vec<Keyed<ScimManagedCredential>>,
    pub managed_events: Vec<ScimManagedConnectionEvent>,
}

impl View for MemoryScimStore {
    type V = ScimStoreModel;

    open spec fn view(&self) -> ScimStoreModel {
        ScimStoreModel {
            bindings: self.bindings.deep_view(),
            users: self.users.deep_view(),
            groups: self.groups.deep_view(),
            tombstones: self.tombstones.deep_view(),
            creation_requests: self.creation_requests.deep_view(),
            connections: self.managed_connections.deep_view(),
            credentials: self.managed_credentials.deep_view(),
            events: self.managed_events.deep_view(),
        }
    }
}

/// A result of the store, by value.
pub open spec fn stored<A: DeepView>(r: Result<A, ScimStoreError>) -> Result<A::V, ScimStoreError> {
    match r {
        Ok(a) => Ok(a.deep_view()),
        Err(e) => Err(e),
    }
}

/// Whether the connection's binding records a decommissioning.
pub open spec fn decommissioned(bindings: Seq<(Seq<char>, ScimConnectionBindingView)>, connection_id: Seq<char>) -> bool {
    match lookup(bindings, connection_id) {
        Some(b) => b.decommissioned_at is Some,
        None => false,
    }
}

/// What binding a connection to a provisioning domain answers.
pub open spec fn bind_outcome(
    bindings: Seq<(Seq<char>, ScimConnectionBindingView)>,
    connection_id: Seq<char>,
    provisioning_domain_id: Seq<char>,
) -> Result<ScimConnectionBindingView, ScimStoreError> {
    match lookup(bindings, connection_id) {
        Some(b) => if b.provisioning_domain_id != provisioning_domain_id {
            Err(ScimStoreError::BindingConflict)
        } else if b.decommissioned_at is Some {
            Err(ScimStoreError::Decommissioned)
        } else {
            Ok(b)
        },
        None => Ok(
            ScimConnectionBindingView {
                connection_id,
                provisioning_domain_id,
                decommissioned_at: None,
            },
        ),
    }
}

/// The uniqueness conflict that the first clashing user of the candidate's
/// connection (other than the user `except`) raises, in key order.
pub open spec fn user_conflict(
    users: Seq<(Seq<char>, StoredScimUserView)>,
    candidate: StoredScimUserView,
    except: Option<Seq<char>>,
) -> Option<ScimStoreError>
    decreases users.len(),
{
    if users.len() == 0 {
        None
    } else {
        let u = users[0].1;
        if u.connection_id == candidate.connection_id && u.resource.id != except {
            if eq_ignore_ascii_case(u.resource.user_name, candidate.resource.user_name) {
                Some(ScimStoreError::DuplicateUserName)
            } else if candidate.resource.external_id is Some && u.resource.external_id
                == candidate.resource.external_id {
                Some(ScimStoreError::DuplicateExternalId)
            } else {
                user_conflict(users.drop_first(), candidate, except)
            }
        } else {
            user_conflict(users.drop_first(), candidate, except)
        }
    }
}

/// What storing `candidate` under `id` answers: a uniqueness conflict, a
/// decommissioned connection, or success.
pub open spec fn user_write_outcome(
    m: ScimStoreModel,
    candidate: StoredScimUserView,
    except: Option<Seq<char>>,
) -> Result<StoredScimUserView, ScimStoreError> {
    match user_conflict(m.users, candidate, except) {
        Some(e) => Err(e),
        None => if decommissioned(m.bindings, candidate.connection_id) {
            Err(ScimStoreError::Decommissioned)
        } else {
            Ok(candidate)
        },
    }
}

/// The stored user `resource_id` if it belongs to the connection.
pub open spec fn user_of(
    users: Seq<(Seq<char>, StoredScimUserView)>,
    connection_id: Seq<char>,
    resource_id: Seq<char>,
) -> Option<StoredScimUserView> {
    match lookup(users, resource_id) {
        Some(u) => if u.connection_id == connection_id {
            Some(u)
        } else {
            None
        },
        None => None,
    }
}

/// The uniqueness conflict that the first clashing group of the candidate's
/// connection (other than the group `except`) raises, in key order.
pub open spec fn group_conflict(
    groups: Seq<(Seq<char>, StoredScimGroupView)>,
    candidate: StoredScimGroupView,
    except: Option<Seq<char>>,
) -> Option<ScimStoreError>
    decreases groups.len(),
{
    if groups.len() == 0 {
        None
    } else {
        let g = groups[0].1;
        if g.connection_id == candidate.connection_id && g.resource.id != except {
            if eq_ignore_ascii_case(g.resource.display_name, candidate.resource.display_name) {
                Some(ScimStoreError::DuplicateDisplayName)
            } else if candidate.resource.external_id is Some && g.resource.external_id
                == candidate.resource.external_id {
                Some(ScimStoreError::DuplicateExternalId)
            } else {
                group_conflict(groups.drop_first(), candidate, except)
            }
        } else {
            group_conflict(groups.drop_first(), candidate, except)
        }
    }
}

/// Whether every member of the group names an active user of the group's
/// connection.
pub open spec fn members_valid(users: Seq<(Seq<char>, StoredScimUserView)>, group: StoredScimGroupView) -> bool {
    forall|i: int|
        0 <= i < group.resource.members.len() ==> match lookup(
            users,
            #[trigger] group.resource.members[i].value,
        ) {
            Some(u) => u.connection_id == group.connection_id && u.resource.active,
            None => false,
        }
}

/// What storing the group `candidate` answers.
pub open spec fn group_write_outcome(
    m: ScimStoreModel,
    candidate: StoredScimGroupView,
    except: Option<Seq<char>>,
) -> Result<StoredScimGroupView, ScimStoreError> {
    match group_conflict(m.groups, candidate, except) {
        Some(e) => Err(e),
        None => if !members_valid(m.users, candidate) {
            Err(ScimStoreError::InvalidMember)
        } else if decommissioned(m.bindings, candidate.connection_id) {
            Err(ScimStoreError::Decommissioned)
        } else {
            Ok(candidate)
        },
    }
}

/// The stored group `resource_id` if it belongs to the connection.
pub open spec fn group_of(
    groups: Seq<(Seq<char>, StoredScimGroupView)>,
    connection_id: Seq<char>,
    resource_id: Seq<char>,
) -> Option<StoredScimGroupView> {
    match lookup(groups, resource_id) {
        Some(g) => if g.connection_id == connection_id {
            Some(g)
        } else {
            None
        },
        None => None,
    }
}

/// The group with every member `resource_id` taken out, stamped `now`.
pub open spec fn without_member(g: StoredScimGroupView, resource_id: Seq<char>, now: i64) -> StoredScimGroupView {
    StoredScimGroupView {
        resource: ScimGroupView {
            members: g.resource.members.filter(|m: ScimGroupMemberView| m.value != resource_id),
            ..g.resource
        },
        updated_at: now,
        ..g
    }
}

/// The tombstone kept for an external id of a connection.
pub open spec fn tombstone_of(
    tombstones: Seq<(Seq<char>, Seq<(Seq<char>, ScimTombstoneView)>)>,
    connection_id: Seq<char>,
    external_id: Seq<char>,
) -> Option<ScimTombstoneView> {
    match lookup(tombstones, connection_id) {
        Some(inner) => lookup(inner, external_id),
        None => None,
    }
}

/// How a deleted user's profile is remembered.
pub open spec fn profile_mode(profile_managed: bool) -> Seq<char> {
    if profile_managed {
        "manage"@
    } else {
        "preserve"@
    }
}

fn members_without(members: &Vec<ScimGroupMember>, resource_id: &str) -> (r: Vec<ScimGroupMember>)
    ensures
        r.deep_view() == members.deep_view().filter(|m: ScimGroupMemberView| m.value != resource_id@),
{
    let ghost pred = |m: ScimGroupMemberView| m.value != resource_id@;
    let mut r: Vec<ScimGroupMember> = Vec::new();
    let mut i: usize = 0;
    while i < members.len()
        invariant
            i <= members@.len(),
            pred == (|m: ScimGroupMemberView| m.value != resource_id@),
            r.deep_view() == members.deep_view().take(i as int).filter(pred),
        decreases members@.len() - i,
    {
        let ghost before = r.deep_view();
        assert(members.deep_view().take(i + 1).drop_last() =~= members.deep_view().take(i as int));
        assert(members.deep_view().take(i + 1).last() == members@[i as int]@);
        let ghost step = members.deep_view().take(i + 1);
        proof {
            reveal(Seq::filter);
        }
        assert(step.filter(pred) == (if pred(step.last()) {
            step.drop_last().filter(pred).push(step.last())
        } else {
            step.drop_last().filter(pred)
        }));
        if !str_eq(members[i].value.as_str(), resource_id) {
            r.push(members[i].exact_clone());
            assert(r.deep_view() =~= before.push(members@[i as int]@));
        }
        i = i + 1;
    }
    assert(members.deep_view().take(i as int) =~= members.deep_view());
    r
}

fn group_without_member(g: &StoredScimGroup, resource_id: &str, now: i64) -> (r: StoredScimGroup)
    ensures
        r@ == without_member(g@, resource_id@, now),
{
    StoredScimGroup {
        resource: ScimGroup {
            schemas: g.resource.schemas.exact_clone(),
            id: g.resource.id.exact_clone(),
            external_id: g.resource.external_id.exact_clone(),
            display_name: g.resource.display_name.exact_clone(),
            members: members_without(&g.resource.members, resource_id),
            meta: g.resource.meta.exact_clone(),
        },
        connection_id: g.connection_id.exact_clone(),
        provisioning_domain_id: g.provisioning_domain_id.exact_clone(),
        created_at: g.created_at,
        updated_at: now,
    }
}

/// The values of entries, in key order.
pub open spec fn values_of<A>(s: Seq<(Seq<char>, A)>) -> Seq<A> {
    s.map_values(|e: (Seq<char>, A)| e.1)
}

/// The users of a connection, in key order.
pub open spec fn users_of_connection(users: Seq<(Seq<char>, StoredScimUserView)>, connection_id: Seq<char>) -> Seq<
    StoredScimUserView,
> {
    values_of(users).filter(|u: StoredScimUserView| u.connection_id == connection_id)
}

/// The groups of a connection, in key order.
pub open spec fn groups_of_connection(groups: Seq<(Seq<char>, StoredScimGroupView)>, connection_id: Seq<char>) -> Seq<
    StoredScimGroupView,
> {
    values_of(groups).filter(|g: StoredScimGroupView| g.connection_id == connection_id)
}

/// An optional text as a sort key part: absent sorts first.
pub open spec fn opt_text_part(t: Option<Seq<char>>) -> SortPartV {
    match t {
        Some(x) => SortPartV::Text(x),
        None => SortPartV::Missing,
    }
}

/// Users are listed by creation time, then resource id.
pub open spec fn user_sort_key(u: StoredScimUserView) -> Seq<SortPartV> {
    seq![SortPartV::Int(u.created_at), opt_text_part(u.resource.id)]
}

/// Groups are listed by creation time, then resource id.
pub open spec fn group_sort_key(g: StoredScimGroupView) -> Seq<SortPartV> {
    seq![SortPartV::Int(g.created_at), opt_text_part(g.resource.id)]
}

/// Whether `page` is the first page of the events of connection record
/// `record_id`, newest first: at most `EVENT_PAGE` of them, in descending
/// order of their sort keys, events with equal keys kept in stored order.
pub open spec fn event_page(
    events: Seq<ScimManagedConnectionEventView>,
    record_id: Seq<char>,
    page: Seq<ScimManagedConnectionEventView>,
) -> bool {
    let selected = events_of_record(events, record_id);
    &&& page.len() == if selected.len() < EVENT_PAGE {
        selected.len()
    } else {
        EVENT_PAGE as nat
    }
    &&& exists|all: Seq<ScimManagedConnectionEventView>|
        stably_sorted(
            all,
            selected,
            selected.map_values(|e: ScimManagedConnectionEventView| event_sort_key(e)),
            true,
        ) && page == all.take(page.len() as int)
}

/// An optional text as a sort key part.
pub fn opt_text_key(t: &Option<String>) -> (r: SortPart)
    ensures
        r.deep_view() == opt_text_part(t.deep_view()),
{
    match t {
        Some(x) => SortPart::Text(x.exact_clone()),
        None => SortPart::Missing,
    }
}

fn user_key(u: &StoredScimUser) -> (k: Vec<SortPart>)
    ensures
        k.deep_view() == user_sort_key(u@),
{
    let k = vec![SortPart::Int(u.created_at), opt_text_key(&u.resource.id)];
    assert(k.deep_view() =~= user_sort_key(u@));
    k
}

fn group_key(g: &StoredScimGroup) -> (k: Vec<SortPart>)
    ensures
        k.deep_view() == group_sort_key(g@),
{
    let k = vec![SortPart::Int(g.created_at), opt_text_key(&g.resource.id)];
    assert(k.deep_view() =~= group_sort_key(g@));
    k
}

/// Filtering a sequence extended by one element.
pub proof fn lemma_filter_push<A>(s: Seq<A>, a: A, p: spec_fn(A) -> bool)
    ensures
        s.push(a).filter(p) == (if p(a) {
            s.filter(p).push(a)
        } else {
            s.filter(p)
        }),
{
    reveal(Seq::filter);
    assert(s.push(a).drop_last() =~= s);
}

/// The managed connection `connection_id` if it belongs to the domain.
pub open spec fn connection_in_domain(
    connections: Seq<(Seq<char>, ScimManagedConnectionView)>,
    connection_id: Seq<char>,
    provisioning_domain_id: Seq<char>,
) -> Option<ScimManagedConnectionView> {
    match lookup(connections, connection_id) {
        Some(c) => if c.provisioning_domain_id == provisioning_domain_id {
            Some(c)
        } else {
            None
        },
        None => None,
    }
}

/// The first managed connection, in key order, whose record id is `record_id`.
pub open spec fn connection_by_record(
    connections: Seq<(Seq<char>, ScimManagedConnectionView)>,
    record_id: Seq<char>,
) -> Option<ScimManagedConnectionView>
    decreases connections.len(),
{
    if connections.len() == 0 {
        None
    } else if connections[0].1.id == record_id {
        Some(connections[0].1)
    } else {
        connection_by_record(connections.drop_first(), record_id)
    }
}

/// The managed connections of a provisioning domain, in key order.
pub open spec fn connections_of_domain(
    connections: Seq<(Seq<char>, ScimManagedConnectionView)>,
    provisioning_domain_id: Seq<char>,
) -> Seq<ScimManagedConnectionView> {
    values_of(connections).filter(
        |c: ScimManagedConnectionView| c.provisioning_domain_id == provisioning_domain_id,
    )
}

/// The credentials of a managed connection record, in key order.
pub open spec fn credentials_of_record(
    credentials: Seq<(Seq<char>, ScimManagedCredentialView)>,
    record_id: Seq<char>,
) -> Seq<ScimManagedCredentialView> {
    values_of(credentials).filter(|c: ScimManagedCredentialView| c.connection_record_id == record_id)
}

/// Whether a credential of the record is active but past its expiry.
pub open spec fn expiry_due(c: ScimManagedCredentialView, record_id: Seq<char>, now: i64) -> bool {
    c.connection_record_id == record_id && c.status == "active"@ && c.expires_at <= now
}

/// The credential with another status.
pub open spec fn with_status_spec(c: ScimManagedCredentialView, status: Seq<char>) -> ScimManagedCredentialView {
    ScimManagedCredentialView { status, ..c }
}

/// The credentials with every active, expired credential of the record
/// marked `"expired"`.
pub open spec fn expire_due(
    credentials: Seq<(Seq<char>, ScimManagedCredentialView)>,
    record_id: Seq<char>,
    now: i64,
) -> Seq<(Seq<char>, ScimManagedCredentialView)> {
    credentials.map_values(
        |e: (Seq<char>, ScimManagedCredentialView)|
            (e.0, if expiry_due(e.1, record_id, now) {
                with_status_spec(e.1, "expired"@)
            } else {
                e.1
            }),
    )
}

/// Whether a credential is an active credential of the record.
pub open spec fn active_for(c: ScimManagedCredentialView, record_id: Seq<char>) -> bool {
    c.connection_record_id == record_id && c.status == "active"@
}

/// The number of active credentials of the record.
pub open spec fn active_count(credentials: Seq<(Seq<char>, ScimManagedCredentialView)>, record_id: Seq<char>) -> nat {
    count_where(values_of(credentials), |c: ScimManagedCredentialView| active_for(c, record_id))
}

/// The number of events of the record.
pub open spec fn event_count(events: Seq<ScimManagedConnectionEventView>, record_id: Seq<char>) -> nat {
    count_where(events, |e: ScimManagedConnectionEventView| e.connection_record_id == record_id)
}

/// The credential `credential_id` if it belongs to the record.
pub open spec fn credential_of_record(
    credentials: Seq<(Seq<char>, ScimManagedCredentialView)>,
    record_id: Seq<char>,
    credential_id: Seq<char>,
) -> Option<ScimManagedCredentialView> {
    match lookup(credentials, credential_id) {
        Some(c) => if c.connection_record_id == record_id {
            Some(c)
        } else {
            None
        },
        None => None,
    }
}

/// Whether a credential last used at `last` may be stamped again at `now`
/// after at least `seconds` seconds.
pub open spec fn touch_due(last: Option<i64>, now: i64, seconds: i64) -> bool {
    match last {
        None => true,
        Some(t) => now - t >= seconds * 1000,
    }
}

/// Events are listed newest first by sequence number.
pub open spec fn event_sort_key(e: ScimManagedConnectionEventView) -> Seq<SortPartV> {
    seq![SortPartV::Int(e.sequence as i64)]
}

/// The events of a record, in insertion order.
pub open spec fn events_of_record(events: Seq<ScimManagedConnectionEventView>, record_id: Seq<char>) -> Seq<
    ScimManagedConnectionEventView,
> {
    events.filter(|e: ScimManagedConnectionEventView| e.connection_record_id == record_id)
}

/// At most this many events are listed.
pub const EVENT_PAGE: usize = 100;

fn with_status(c: &ScimManagedCredential, status: &str) -> (r: ScimManagedCredential)
    ensures
        r@ == with_status_spec(c@, status@),
{
    ScimManagedCredential {
        id: c.id.exact_clone(),
        connection_record_id: c.connection_record_id.exact_clone(),
        credential_id: c.credential_id.exact_clone(),
        token_digest: c.token_digest.exact_clone(),
        hash_version: c.hash_version.exact_clone(),
        active_slot_key: c.active_slot_key.exact_clone(),
        status: owned(status),
        scopes: c.scopes.exact_clone(),
        serialized_scopes: c.serialized_scopes.exact_clone(),
        expires_at: c.expires_at,
        created_at: c.created_at,
        created_by: c.created_by.exact_clone(),
        last_used_at: c.last_used_at,
        revoked_at: c.revoked_at,
        revoked_by: c.revoked_by.exact_clone(),
        decommissioned_at: c.decommissioned_at,
    }
}

fn with_revision(c: &ScimManagedConnection, revision: u64) -> (r: ScimManagedConnection)
    ensures
        r@ == (ScimManagedConnectionView { revision, ..c@ }),
{
    let mut r = c.exact_clone();
    r.revision = revision;
    r
}

/// The resource ids of the connection's users that have one, in key order.
pub open spec fn user_ids_of_connection(users: Seq<(Seq<char>, StoredScimUserView)>, connection_id: Seq<char>) -> Seq<
    Seq<char>,
> {
    values_of(users).filter(
        |u: StoredScimUserView| u.connection_id == connection_id && u.resource.id is Some,
    ).map_values(|u: StoredScimUserView| u.resource.id->0)
}

/// The keys of the users stored for a connection, in key order.
pub open spec fn user_keys_of_connection(users: Seq<(Seq<char>, StoredScimUserView)>, connection_id: Seq<char>) -> Seq<
    Seq<char>,
> {
    users.filter(|e: (Seq<char>, StoredScimUserView)| e.1.connection_id == connection_id).map_values(
        |e: (Seq<char>, StoredScimUserView)| e.0,
    )
}

/// The keys of the groups stored for a connection, in key order.
pub open spec fn group_keys_of_connection(groups: Seq<(Seq<char>, StoredScimGroupView)>, connection_id: Seq<char>) -> Seq<
    Seq<char>,
> {
    groups.filter(|e: (Seq<char>, StoredScimGroupView)| e.1.connection_id == connection_id).map_values(
        |e: (Seq<char>, StoredScimGroupView)| e.0,
    )
}

/// The credentials with those of the record, if any, marked
/// `"decommissioned"` where `only_active` is off or they are active.
pub open spec fn retire_credentials(
    credentials: Seq<(Seq<char>, ScimManagedCredentialView)>,
    record_id: Option<Seq<char>>,
    only_active: bool,
) -> Seq<(Seq<char>, ScimManagedCredentialView)> {
    credentials.map_values(
        |e: (Seq<char>, ScimManagedCredentialView)|
            (e.0, if record_id == Some(e.1.connection_record_id) && (!only_active || e.1.status == "active"@) {
                with_status_spec(e.1, "decommissioned"@)
            } else {
                e.1
            }),
    )
}

/// The record id of the managed connection `connection_id`, if there is one.
pub open spec fn record_of(connections: Seq<(Seq<char>, ScimManagedConnectionView)>, connection_id: Seq<char>) -> Option<
    Seq<char>,
> {
    match lookup(connections, connection_id) {
        Some(c) => Some(c.id),
        None => None,
    }
}

/// A managed connection decommissioned by `actor_id` at `now`: marked as
/// decommissioning first where it was active, then decommissioned, each step
/// raising its revision.
pub open spec fn decommissioning_step(c: ScimManagedConnectionView, actor_id: Seq<char>, now: i64) -> ScimManagedConnectionView {
    if c.status == "active"@ {
        ScimManagedConnectionView {
            status: "decommissioning"@,
            revision: (c.revision + 1) as u64,
            decommission_started_at: Some(now),
            decommission_started_by: Some(actor_id),
            ..c
        }
    } else {
        c
    }
}

pub open spec fn decommissioned_step(c: ScimManagedConnectionView, actor_id: Seq<char>, now: i64) -> ScimManagedConnectionView {
    ScimManagedConnectionView {
        status: "decommissioned"@,
        revision: (c.revision + 1) as u64,
        decommissioned_at: Some(now),
        decommissioned_by: Some(actor_id),
        ..c
    }
}

/// An event of a managed connection without a credential.
pub open spec fn connection_event(
    id: Seq<char>,
    c: ScimManagedConnectionView,
    kind: Seq<char>,
    actor_id: Seq<char>,
    now: i64,
) -> ScimManagedConnectionEventView {
    ScimManagedConnectionEventView {
        id,
        connection_record_id: c.id,
        sequence: c.revision,
        kind,
        actor_id,
        credential_id: None,
        created_at: now,
    }
}

fn connection_event_of(id: String, c: &ScimManagedConnection, kind: &str, actor_id: &str, now: i64) -> (r:
    ScimManagedConnectionEvent)
    ensures
        r@ == connection_event(id@, c@, kind@, actor_id@, now),
{
    ScimManagedConnectionEvent {
        id,
        connection_record_id: c.id.exact_clone(),
        sequence: c.revision,
        kind: owned(kind),
        actor_id: owned(actor_id),
        credential_id: None,
        created_at: now,
    }
}

/// Storing one credential adds at most one active credential of a record.
pub proof fn lemma_active_count_after_upsert(
    before: Seq<(Seq<char>, ScimManagedCredentialView)>,
    after: Seq<(Seq<char>, ScimManagedCredentialView)>,
    entry: (Seq<char>, ScimManagedCredentialView),
    record_id: Seq<char>,
)
    requires
        exists|i: int|
            (0 <= i < before.len() && after == before.update(i, entry)) || (0 <= i <= before.len() && after
                == before.insert(i, entry)),
    ensures
        active_count(after, record_id) <= active_count(before, record_id) + 1,
{
    let p = |c: ScimManagedCredentialView| active_for(c, record_id);
    let i = choose|i: int|
        (0 <= i < before.len() && after == before.update(i, entry)) || (0 <= i <= before.len() && after
            == before.insert(i, entry));
    if 0 <= i <= before.len() && after == before.insert(i, entry) {
        assert(values_of(after) =~= values_of(before).insert(i, entry.1));
        lemma_count_where_insert(values_of(before), p, i, entry.1);
    } else {
        assert(values_of(after) =~= values_of(before).update(i, entry.1));
        lemma_count_where_update(values_of(before), p, i, entry.1);
    }
}

/// Within a connection, no two stored users share a user name (ignoring
/// ASCII case) or an external id.
pub open spec fn user_names_unique(users: Map<Seq<char>, StoredScimUserView>) -> bool {
    forall|a: Seq<char>, b: Seq<char>|
        #![trigger users[a], users[b]]
        users.dom().contains(a) && users.dom().contains(b) && a != b && users[a].connection_id
            == users[b].connection_id ==> !eq_ignore_ascii_case(
            users[a].resource.user_name,
            users[b].resource.user_name,
        ) && (users[a].resource.external_id is Some ==> users[a].resource.external_id
            != users[b].resource.external_id)
}

/// Every stored user is kept under its own resource id.
pub open spec fn users_keyed_by_id(users: Map<Seq<char>, StoredScimUserView>) -> bool {
    forall|k: Seq<char>| users.dom().contains(k) ==> #[trigger] users[k].resource.id == Some(k)
}

proof fn lemma_no_user_conflict(
    users: Seq<(Seq<char>, StoredScimUserView)>,
    candidate: StoredScimUserView,
    except: Option<Seq<char>>,
    j: int,
)
    requires
        user_conflict(users, candidate, except) is None,
        0 <= j < users.len(),
        users[j].1.connection_id == candidate.connection_id,
        users[j].1.resource.id != except,
    ensures
        !eq_ignore_ascii_case(users[j].1.resource.user_name, candidate.resource.user_name),
        !(candidate.resource.external_id is Some && users[j].1.resource.external_id
            == candidate.resource.external_id),
    decreases users.len(),
{
    if j > 0 {
        lemma_no_user_conflict(users.drop_first(), candidate, except, j - 1);
    }
}

/// Storing a user that passed the uniqueness check keeps user names and
/// external ids unique within each connection, where every user is kept
/// under its own resource id and the check excepted at most the user being
/// replaced: this covers `create_user`, and `replace_user` given a resource
/// whose id is the one it replaces.
pub proof fn law_user_write_keeps_names_unique(
    users: Seq<(Seq<char>, StoredScimUserView)>,
    candidate: StoredScimUserView,
    except: Option<Seq<char>>,
)
    requires
        sorted_keys(users),
        user_names_unique(as_map(users)),
        users_keyed_by_id(as_map(users)),
        user_conflict(users, candidate, except) is None,
        candidate.resource.id is Some,
        except is None || except == candidate.resource.id,
    ensures
        user_names_unique(as_map(users).insert(candidate.resource.id->0, candidate)),
        users_keyed_by_id(as_map(users).insert(candidate.resource.id->0, candidate)),
{
    let m = as_map(users);
    let k0 = candidate.resource.id->0;
    let n = m.insert(k0, candidate);
    assert forall|b: Seq<char>| m.dom().contains(b) && b != k0 && m[b].connection_id == candidate.connection_id implies
        !eq_ignore_ascii_case(m[b].resource.user_name, candidate.resource.user_name) && !(
        candidate.resource.external_id is Some && m[b].resource.external_id == candidate.resource.external_id) by {
        let j = crate::keyed::key_index(users, b);
        assert(users[j].0 == b);
        crate::keyed::lemma_lookup_at(users, j);
        assert(m[b] == users[j].1);
        assert(m[b].resource.id == Some(b));
        lemma_no_user_conflict(users, candidate, except, j);
    }
    assert forall|a: Seq<char>, b: Seq<char>|
        #![trigger n[a], n[b]]
        n.dom().contains(a) && n.dom().contains(b) && a != b && n[a].connection_id == n[b].connection_id implies
        !eq_ignore_ascii_case(n[a].resource.user_name, n[b].resource.user_name) && (
        n[a].resource.external_id is Some ==> n[a].resource.external_id != n[b].resource.external_id) by {
        if a == k0 {
            assert(n[b] == m[b]);
        } else if b == k0 {
            assert(n[a] == m[a]);
        } else {
            assert(n[a] == m[a] && n[b] == m[b]);
        }
    }
}

/// Once a connection is bound to a provisioning domain, binding it to
/// another domain is refused and binding it again to the same domain
/// answers the same binding.
pub proof fn law_binding_is_stable(
    before: Seq<(Seq<char>, ScimConnectionBindingView)>,
    after: Seq<(Seq<char>, ScimConnectionBindingView)>,
    connection_id: Seq<char>,
    provisioning_domain_id: Seq<char>,
    other_domain_id: Seq<char>,
)
    requires
        sorted_keys(before),
        sorted_keys(after),
        bind_outcome(before, connection_id, provisioning_domain_id) is Ok,
        as_map(after) == as_map(before).insert(
            connection_id,
            bind_outcome(before, connection_id, provisioning_domain_id)->Ok_0,
        ),
        other_domain_id != provisioning_domain_id,
    ensures
        bind_outcome(after, connection_id, other_domain_id) == Err::<ScimConnectionBindingView, ScimStoreError>(
            ScimStoreError::BindingConflict,
        ),
        bind_outcome(after, connection_id, provisioning_domain_id) == bind_outcome(
            before,
            connection_id,
            provisioning_domain_id,
        ),
{
    crate::keyed::lemma_lookup_as_map(after, connection_id);
}

/// A decommissioned connection takes no more user or group writes.
pub proof fn law_decommissioned_connection_refuses_writes(
    m: ScimStoreModel,
    connection_id: Seq<char>,
    user: StoredScimUserView,
    group: StoredScimGroupView,
    except: Option<Seq<char>>,
)
    requires
        as_map(m.bindings).dom().contains(connection_id),
        as_map(m.bindings)[connection_id].decommissioned_at is Some,
        user.connection_id == connection_id,
        group.connection_id == connection_id,
    ensures
        user_write_outcome(m, user, except) is Err,
        group_write_outcome(m, group, except) is Err,
{
    crate::keyed::lemma_lookup_as_map(m.bindings, connection_id);
}

/// After a connection's users are removed, none of its users is left.
pub proof fn law_connection_users_removed(
    before: Seq<(Seq<char>, StoredScimUserView)>,
    after: Map<Seq<char>, StoredScimUserView>,
    connection_id: Seq<char>,
)
    requires
        sorted_keys(before),
        after == as_map(before).remove_keys(user_keys_of_connection(before, connection_id).to_set()),
    ensures
        forall|k: Seq<char>| #[trigger] after.dom().contains(k) ==> after[k].connection_id != connection_id,
{
    let pred = |e: (Seq<char>, StoredScimUserView)| e.1.connection_id == connection_id;
    let keys = user_keys_of_connection(before, connection_id);
    assert forall|k: Seq<char>| #[trigger] after.dom().contains(k) implies after[k].connection_id
        != connection_id by {
        let j = crate::keyed::key_index(before, k);
        crate::keyed::lemma_lookup_at(before, j);
        if before[j].1.connection_id == connection_id {
            reveal(Seq::filter);
            before.filter_lemma(pred);
            assert(before.filter(pred).contains(before[j]));
            let i = choose|i: int| 0 <= i < before.filter(pred).len() && before.filter(pred)[i] == before[j];
            assert(keys[i] == k);
            assert(keys.to_set().contains(k));
        }
    }
}

/// After a connection's groups are removed, none of its groups is left.
pub proof fn law_connection_groups_removed(
    before: Seq<(Seq<char>, StoredScimGroupView)>,
    after: Map<Seq<char>, StoredScimGroupView>,
    connection_id: Seq<char>,
)
    requires
        sorted_keys(before),
        after == as_map(before).remove_keys(group_keys_of_connection(before, connection_id).to_set()),
    ensures
        forall|k: Seq<char>| #[trigger] after.dom().contains(k) ==> after[k].connection_id != connection_id,
{
    let pred = |e: (Seq<char>, StoredScimGroupView)| e.1.connection_id == connection_id;
    let keys = group_keys_of_connection(before, connection_id);
    assert forall|k: Seq<char>| #[trigger] after.dom().contains(k) implies after[k].connection_id
        != connection_id by {
        let j = crate::keyed::key_index(before, k);
        crate::keyed::lemma_lookup_at(before, j);
        if before[j].1.connection_id == connection_id {
            reveal(Seq::filter);
            before.filter_lemma(pred);
            assert(before.filter(pred).contains(before[j]));
            let i = choose|i: int| 0 <= i < before.filter(pred).len() && before.filter(pred)[i] == before[j];
            assert(keys[i] == k);
            assert(keys.to_set().contains(k));
        }
    }
}

/// A deleted user is no longer a member of any group.
pub proof fn law_deleted_user_leaves_groups(g: StoredScimGroupView, resource_id: Seq<char>, now: i64)
    ensures
        forall|i: int|
            0 <= i < without_member(g, resource_id, now).resource.members.len() ==> (#[trigger] without_member(
                g,
                resource_id,
                now,
            ).resource.members[i]).value != resource_id,
{
    let pred = |m: ScimGroupMemberView| m.value != resource_id;
    reveal(Seq::filter);
    g.resource.members.filter_lemma(pred);
}

/// A creation request id, once used, refuses every later creation with it.
pub proof fn law_creation_request_used_once(requests: Seq<Seq<char>>, creation_request_id: Seq<char>)
    ensures
        requests.push(creation_request_id).contains(creation_request_id),
{
    assert(requests.push(creation_request_id)[requests.len() as int] == creation_request_id);
}

/// Once a managed connection is decommissioned, decommissioning it again
/// finds it decommissioned, and so changes nothing.
pub proof fn law_decommission_is_final(
    after: Seq<(Seq<char>, ScimManagedConnectionView)>,
    connection_id: Seq<char>,
    provisioning_domain_id: Seq<char>,
)
    requires
        as_map(after).dom().contains(connection_id),
        as_map(after)[connection_id].status == "decommissioned"@,
        as_map(after)[connection_id].provisioning_domain_id == provisioning_domain_id,
    ensures
        connection_in_domain(after, connection_id, provisioning_domain_id) == Some(as_map(after)[connection_id]),
        connection_in_domain(after, connection_id, provisioning_domain_id)->0.status == "decommissioned"@,
{
    crate::keyed::lemma_lookup_as_map(after, connection_id);
}

/// Decommissioning a managed connection twice: the first call leaves the
/// connection decommissioned in its domain, so the second finds it so and
/// changes nothing.
pub proof fn law_decommission_twice(
    before: Seq<(Seq<char>, ScimManagedConnectionView)>,
    after: Seq<(Seq<char>, ScimManagedConnectionView)>,
    connection_id: Seq<char>,
    provisioning_domain_id: Seq<char>,
    actor_id: Seq<char>,
    now: i64,
)
    requires
        connection_in_domain(before, connection_id, provisioning_domain_id) is Some,
        as_map(after) == as_map(before).insert(
            connection_id,
            decommissioned_step(
                decommissioning_step(
                    connection_in_domain(before, connection_id, provisioning_domain_id)->0,
                    actor_id,
                    now,
                ),
                actor_id,
                now,
            ),
        ),
    ensures
        connection_in_domain(after, connection_id, provisioning_domain_id) matches Some(d) && d.status
            == "decommissioned"@,
{
    crate::keyed::lemma_lookup_as_map(before, connection_id);
    crate::keyed::lemma_lookup_as_map(after, connection_id);
}

impl MemoryScimStore {
    /// The value of the store.
    pub open spec fn wf(&self) -> bool {
        self@.wf()
    }

    /// An empty store.
    pub fn new() -> (r: MemoryScimStore)
        ensures
            r.wf(),
            r@.bindings.len() == 0,
            r@.users.len() == 0,
            r@.groups.len() == 0,
            r@.tombstones.len() == 0,
            r@.creation_requests.len() == 0,
            r@.connections.len() == 0,
            r@.credentials.len() == 0,
            r@.events.len() == 0,
    {
        MemoryScimStore {
            bindings: Vec::new(),
            users: Vec::new(),
            groups: Vec::new(),
            tombstones: Vec::new(),
            creation_requests: Vec::new(),
            managed_connections: Vec::new(),
            managed_credentials: Vec::new(),
            managed_events: Vec::new(),
        }
    }

    /// Binds a connection to a provisioning domain on first use; later uses
    /// must name the same domain and find the connection not decommissioned.
    pub fn bind_connection(&mut self, connection_id: &str, provisioning_domain_id: &str) -> (r: Result<
        ScimConnectionBinding,
        ScimStoreError,
    >)
        requires
            old(self).wf(),
        ensures
            final(self).wf(),
            stored(r) == bind_outcome(old(self)@.bindings, connection_id@, provisioning_domain_id@),
            match r {
                Ok(b) => as_map(final(self)@.bindings) == as_map(old(self)@.bindings).insert(
                    connection_id@,
                    b@,
                ),
                Err(_) => final(self)@ == old(self)@,
            },
            old(self)@.changes_only(final(self)@, set![StoreField::Bindings]),
    {
        match find_key(&self.bindings, connection_id) {
            Some(i) => {
                let binding = &self.bindings[i].value;
                if !str_eq(binding.provisioning_domain_id.as_str(), provisioning_domain_id) {
                    return Err(ScimStoreError::BindingConflict);
                }
                if binding.decommissioned_at.is_some() {
                    return Err(ScimStoreError::Decommissioned);
                }
                let b = binding.exact_clone();
                proof {
                    crate::keyed::lemma_as_map_from_lookup(self@.bindings, self@.bindings);
                    assert(as_map(self@.bindings).insert(connection_id@, b@) =~= as_map(self@.bindings));
                }
                Ok(b)
            },
            None => {
                let binding = ScimConnectionBinding {
                    connection_id: owned(connection_id),
                    provisioning_domain_id: owned(provisioning_domain_id),
                    decommissioned_at: None,
                };
                let copy = binding.exact_clone();
                upsert(&mut self.bindings, owned(connection_id), binding);
                Ok(copy)
            },
        }
    }

    /// Fails where the connection has been decommissioned.
    pub fn ensure_active_binding(&self, connection_id: &str) -> (r: Result<(), ScimStoreError>)
        requires
            self.wf(),
        ensures
            r is Err <==> decommissioned(self@.bindings, connection_id@),
            r is Err ==> r == Err::<(), ScimStoreError>(ScimStoreError::Decommissioned),
    {
        match find_key(&self.bindings, connection_id) {
            Some(i) => if self.bindings[i].value.decommissioned_at.is_some() {
                Err(ScimStoreError::Decommissioned)
            } else {
                Ok(())
            },
            None => Ok(()),
        }
    }

    /// Fails where another user of the candidate's connection (other than
    /// `except`) has the same user name, ignoring ASCII case, or the same
    /// external id.
    pub fn ensure_user_unique(&self, candidate: &StoredScimUser, except: &Option<String>) -> (r: Result<
        (),
        ScimStoreError,
    >)
        requires
            self.wf(),
        ensures
            match user_conflict(self@.users, candidate@, except.deep_view()) {
                Some(e) => r == Err::<(), ScimStoreError>(e),
                None => r is Ok,
            },
    {
        let ghost s = self@.users;
        let ghost c = candidate@;
        let ghost x = except.deep_view();
        let mut i: usize = 0;
        assert(s.skip(0) =~= s);
        while i < self.users.len()
            invariant
                s == self.users.deep_view(),
                c == candidate@,
                x == except.deep_view(),
                i <= s.len(),
                user_conflict(s, c, x) == user_conflict(s.skip(i as int), c, x),
            decreases s.len() - i,
        {
            let u = &self.users[i].value;
            assert(s[i as int] == self.users@[i as int].deep_view());
            assert(s.skip(i as int)[0] == s[i as int]);
            assert(s.skip(i as int).drop_first() =~= s.skip(i + 1));
            if str_eq(u.connection_id.as_str(), candidate.connection_id.as_str()) && !opt_str_eq(
                &u.resource.id,
                except,
            ) {
                if str_eq_ignore_ascii_case(
                    u.resource.user_name.as_str(),
                    candidate.resource.user_name.as_str(),
                ) {
                    return Err(ScimStoreError::DuplicateUserName);
                }
                if candidate.resource.external_id.is_some() && opt_str_eq(
                    &u.resource.external_id,
                    &candidate.resource.external_id,
                ) {
                    return Err(ScimStoreError::DuplicateExternalId);
                }
            }
            i = i + 1;
        }
        assert(s.skip(i as int).len() == 0);
        Ok(())
    }

    /// Stores a new user under its resource id.
    pub fn create_user(&mut self, user: StoredScimUser) -> (r: Result<StoredScimUser, ScimStoreError>)
        requires
            old(self).wf(),
            user.resource.id is Some,
        ensures
            final(self).wf(),
            stored(r) == user_write_outcome(old(self)@, user@, None),
            match r {
                Ok(u) => as_map(final(self)@.users) == as_map(old(self)@.users).insert(
                    user.resource.id->0@,
                    user@,
                ),
                Err(_) => final(self)@ == old(self)@,
            },
            old(self)@.changes_only(final(self)@, set![StoreField::Users]),
    {
        let none: Option<String> = None;
        match self.ensure_user_unique(&user, &none) {
            Err(e) => return Err(e),
            Ok(()) => {},
        }
        match self.ensure_active_binding(user.connection_id.as_str()) {
            Err(e) => return Err(e),
            Ok(()) => {},
        }
        let id = match &user.resource.id {
            Some(id) => id.exact_clone(),
            None => owned(""),
        };
        let copy = user.exact_clone();
        upsert(&mut self.users, id, user);
        Ok(copy)
    }

    /// The user `resource_id` of the connection, if any.
    pub fn find_user(&self, connection_id: &str, resource_id: &str) -> (r: Option<StoredScimUser>)
        requires
            self.wf(),
        ensures
            r.deep_view() == user_of(self@.users, connection_id@, resource_id@),
    {
        match find_key(&self.users, resource_id) {
            Some(i) => {
                let u = &self.users[i].value;
                if str_eq(u.connection_id.as_str(), connection_id) {
                    Some(u.exact_clone())
                } else {
                    None
                }
            },
            None => None,
        }
    }

    /// Replaces the resource of the connection's user `resource_id`, keeping
    /// its other stored fields and stamping the update time.
    pub fn replace_user(&mut self, connection_id: &str, resource_id: &str, resource: ScimUser, now: i64) -> (r:
        Result<StoredScimUser, ScimStoreError>)
        requires
            old(self).wf(),
        ensures
            final(self).wf(),
            stored(r) == (match user_of(old(self)@.users, connection_id@, resource_id@) {
                None => Err(ScimStoreError::NotFound),
                Some(u) => user_write_outcome(
                    old(self)@,
                    StoredScimUserView { resource: resource@, updated_at: now, ..u },
                    Some(resource_id@),
                ),
            }),
            match r {
                Ok(u) => as_map(final(self)@.users) == as_map(old(self)@.users).insert(resource_id@, u@),
                Err(_) => final(self)@ == old(self)@,
            },
            old(self)@.changes_only(final(self)@, set![StoreField::Users]),
    {
        let existing = match self.find_user(connection_id, resource_id) {
            Some(u) => u,
            None => return Err(ScimStoreError::NotFound),
        };
        let candidate = StoredScimUser {
            resource,
            connection_id: existing.connection_id,
            provisioning_domain_id: existing.provisioning_domain_id,
            user_id: existing.user_id,
            profile_managed: existing.profile_managed,
            created_at: existing.created_at,
            updated_at: now,
        };
        let except = Some(owned(resource_id));
        match self.ensure_user_unique(&candidate, &except) {
            Err(e) => return Err(e),
            Ok(()) => {},
        }
        match self.ensure_active_binding(connection_id) {
            Err(e) => return Err(e),
            Ok(()) => {},
        }
        let copy = candidate.exact_clone();
        upsert(&mut self.users, owned(resource_id), candidate);
        Ok(copy)
    }

    /// Fails where another group of the candidate's connection (other than
    /// `except`) has the same display name, ignoring ASCII case, or the same
    /// external id.
    pub fn ensure_group_unique(&self, candidate: &StoredScimGroup, except: &Option<String>) -> (r: Result<
        (),
        ScimStoreError,
    >)
        requires
            self.wf(),
        ensures
            match group_conflict(self@.groups, candidate@, except.deep_view()) {
                Some(e) => r == Err::<(), ScimStoreError>(e),
                None => r is Ok,
            },
    {
        let ghost s = self@.groups;
        let ghost c = candidate@;
        let ghost x = except.deep_view();
        let mut i: usize = 0;
        assert(s.skip(0) =~= s);
        while i < self.groups.len()
            invariant
                s == self.groups.deep_view(),
                c == candidate@,
                x == except.deep_view(),
                i <= s.len(),
                group_conflict(s, c, x) == group_conflict(s.skip(i as int), c, x),
            decreases s.len() - i,
        {
            let g = &self.groups[i].value;
            assert(s[i as int] == self.groups@[i as int].deep_view());
            assert(s.skip(i as int)[0] == s[i as int]);
            assert(s.skip(i as int).drop_first() =~= s.skip(i + 1));
            if str_eq(g.connection_id.as_str(), candidate.connection_id.as_str()) && !opt_str_eq(
                &g.resource.id,
                except,
            ) {
                if str_eq_ignore_ascii_case(
                    g.resource.display_name.as_str(),
                    candidate.resource.display_name.as_str(),
                ) {
                    return Err(ScimStoreError::DuplicateDisplayName);
                }
                if candidate.resource.external_id.is_some() && opt_str_eq(
                    &g.resource.external_id,
                    &candidate.resource.external_id,
                ) {
                    return Err(ScimStoreError::DuplicateExternalId);
                }
            }
            i = i + 1;
        }
        assert(s.skip(i as int).len() == 0);
        Ok(())
    }

    /// Fails unless every member of the group names an active user of the
    /// group's connection.
    pub fn ensure_group_members(&self, group: &StoredScimGroup) -> (r: Result<(), ScimStoreError>)
        requires
            self.wf(),
        ensures
            r is Ok <==> members_valid(self@.users, group@),
            r is Err ==> r == Err::<(), ScimStoreError>(ScimStoreError::InvalidMember),
    {
        let mut i: usize = 0;
        while i < group.resource.members.len()
            invariant
                self.wf(),
                i <= group.resource.members@.len(),
                forall|j: int|
                    0 <= j < i ==> match lookup(
                        self@.users,
                        #[trigger] group@.resource.members[j].value,
                    ) {
                        Some(u) => u.connection_id == group@.connection_id && u.resource.active,
                        None => false,
                    },
            decreases group.resource.members@.len() - i,
        {
            assert(group@.resource.members[i as int] == group.resource.members@[i as int]@);
            match find_key(&self.users, group.resource.members[i].value.as_str()) {
                Some(k) => {
                    let u = &self.users[k].value;
                    if !(str_eq(u.connection_id.as_str(), group.connection_id.as_str()) && u.resource.active) {
                        proof {
                            let m = group@.resource.members[i as int];
                            assert(lookup(self@.users, m.value) == Some(u@));
                            assert(!members_valid(self@.users, group@));
                        }
                        return Err(ScimStoreError::InvalidMember);
                    }
                },
                None => {
                    proof {
                        let m = group@.resource.members[i as int];
                        assert(lookup(self@.users, m.value) is None);
                        assert(!members_valid(self@.users, group@));
                    }
                    return Err(ScimStoreError::InvalidMember);
                },
            }
            i = i + 1;
        }
        Ok(())
    }

    /// Stores a new group under its resource id.
    pub fn create_group(&mut self, group: StoredScimGroup) -> (r: Result<StoredScimGroup, ScimStoreError>)
        requires
            old(self).wf(),
            group.resource.id is Some,
        ensures
            final(self).wf(),
            stored(r) == group_write_outcome(old(self)@, group@, None),
            match r {
                Ok(g) => as_map(final(self)@.groups) == as_map(old(self)@.groups).insert(
                    group.resource.id->0@,
                    group@,
                ),
                Err(_) => final(self)@ == old(self)@,
            },
            old(self)@.changes_only(final(self)@, set![StoreField::Groups]),
    {
        let none: Option<String> = None;
        match self.ensure_group_unique(&group, &none) {
            Err(e) => return Err(e),
            Ok(()) => {},
        }
        match self.ensure_group_members(&group) {
            Err(e) => return Err(e),
            Ok(()) => {},
        }
        match self.ensure_active_binding(group.connection_id.as_str()) {
            Err(e) => return Err(e),
            Ok(()) => {},
        }
        let id = match &group.resource.id {
            Some(id) => id.exact_clone(),
            None => owned(""),
        };
        let copy = group.exact_clone();
        upsert(&mut self.groups, id, group);
        Ok(copy)
    }

    /// The group `resource_id` of the connection, if any.
    pub fn find_group(&self, connection_id: &str, resource_id: &str) -> (r: Option<StoredScimGroup>)
        requires
            self.wf(),
        ensures
            r.deep_view() == group_of(self@.groups, connection_id@, resource_id@),
    {
        match find_key(&self.groups, resource_id) {
            Some(i) => {
                let g = &self.groups[i].value;
                if str_eq(g.connection_id.as_str(), connection_id) {
                    Some(g.exact_clone())
                } else {
                    None
                }
            },
            None => None,
        }
    }

    /// Replaces the resource of the connection's group `resource_id`,
    /// keeping its other stored fields and stamping the update time.
    pub fn replace_group(&mut self, connection_id: &str, resource_id: &str, resource: crate::scim::model::ScimGroup, now: i64) -> (r:
        Result<StoredScimGroup, ScimStoreError>)
        requires
            old(self).wf(),
        ensures
            final(self).wf(),
            stored(r) == (match group_of(old(self)@.groups, connection_id@, resource_id@) {
                None => Err(ScimStoreError::NotFound),
                Some(g) => group_write_outcome(
                    old(self)@,
                    StoredScimGroupView { resource: resource@, updated_at: now, ..g },
                    Some(resource_id@),
                ),
            }),
            match r {
                Ok(g) => as_map(final(self)@.groups) == as_map(old(self)@.groups).insert(resource_id@, g@),
                Err(_) => final(self)@ == old(self)@,
            },
            old(self)@.changes_only(final(self)@, set![StoreField::Groups]),
    {
        let existing = match self.find_group(connection_id, resource_id) {
            Some(g) => g,
            None => return Err(ScimStoreError::NotFound),
        };
        let candidate = StoredScimGroup {
            resource,
            connection_id: existing.connection_id,
            provisioning_domain_id: existing.provisioning_domain_id,
            created_at: existing.created_at,
            updated_at: now,
        };
        let except = Some(owned(resource_id));
        match self.ensure_group_unique(&candidate, &except) {
            Err(e) => return Err(e),
            Ok(()) => {},
        }
        match self.ensure_group_members(&candidate) {
            Err(e) => return Err(e),
            Ok(()) => {},
        }
        match self.ensure_active_binding(connection_id) {
            Err(e) => return Err(e),
            Ok(()) => {},
        }
        let copy = candidate.exact_clone();
        upsert(&mut self.groups, owned(resource_id), candidate);
        Ok(copy)
    }

    /// Removes the connection's group `resource_id` and returns it; other
    /// connections' groups are left alone.
    pub fn delete_group(&mut self, connection_id: &str, resource_id: &str) -> (r: Option<StoredScimGroup>)
        requires
            old(self).wf(),
        ensures
            final(self).wf(),
            r.deep_view() == group_of(old(self)@.groups, connection_id@, resource_id@),
            match r {
                Some(_) => as_map(final(self)@.groups) == as_map(old(self)@.groups).remove(resource_id@),
                None => final(self)@ == old(self)@,
            },
            old(self)@.changes_only(final(self)@, set![StoreField::Groups]),
    {
        match find_key(&self.groups, resource_id) {
            Some(i) => {
                if str_eq(self.groups[i].value.connection_id.as_str(), connection_id) {
                    remove_key(&mut self.groups, resource_id)
                } else {
                    None
                }
            },
            None => None,
        }
    }

    /// Removes the connection's user `resource_id` and returns it. Every
    /// group loses that member and is stamped `now`; where the user had an
    /// external id, a tombstone remembers the application user behind it.
    pub fn delete_user(&mut self, connection_id: &str, resource_id: &str, now: i64) -> (r: Option<StoredScimUser>)
        requires
            old(self).wf(),
        ensures
            final(self).wf(),
            r.deep_view() == user_of(old(self)@.users, connection_id@, resource_id@),
            match user_of(old(self)@.users, connection_id@, resource_id@) {
                None => final(self)@ == old(self)@,
                Some(u) => {
                    &&& as_map(final(self)@.users) == as_map(old(self)@.users).remove(resource_id@)
                    &&& final(self)@.groups.len() == old(self)@.groups.len()
                    &&& forall|j: int|
                        0 <= j < final(self)@.groups.len() ==> #[trigger] final(self)@.groups[j] == (
                            old(self)@.groups[j].0,
                            without_member(old(self)@.groups[j].1, resource_id@, now),
                        )
                    &&& match u.resource.external_id {
                        Some(external_id) => {
                            &&& tombstone_of(final(self)@.tombstones, connection_id@, external_id) == Some(
                                ScimTombstoneView {
                                    user_id: u.user_id,
                                    profile_mode: profile_mode(u.profile_managed),
                                },
                            )
                            &&& forall|c: Seq<char>, e: Seq<char>|
                                !(c == connection_id@ && e == external_id) ==> #[trigger] tombstone_of(
                                    final(self)@.tombstones,
                                    c,
                                    e,
                                ) == tombstone_of(old(self)@.tombstones, c, e)
                        },
                        None => final(self)@.tombstones == old(self)@.tombstones,
                    }
                },
            },
            old(self)@.changes_only(
                final(self)@,
                set![StoreField::Users, StoreField::Groups, StoreField::Tombstones],
            ),
    {
        let user = match self.find_user(connection_id, resource_id) {
            Some(u) => u,
            None => return None,
        };
        remove_key(&mut self.users, resource_id);
        let ghost og = self@.groups;
        let mut next: Vec<Keyed<StoredScimGroup>> = Vec::new();
        let mut i: usize = 0;
        while i < self.groups.len()
            invariant
                og == self.groups.deep_view(),
                next.deep_view().len() == i,
                i <= og.len(),
                forall|j: int|
                    0 <= j < i ==> #[trigger] next.deep_view()[j] == (
                        og[j].0,
                        without_member(og[j].1, resource_id@, now),
                    ),
            decreases og.len() - i,
        {
            assert(og[i as int] == self.groups@[i as int].deep_view());
            let stripped = group_without_member(&self.groups[i].value, resource_id, now);
            let key = self.groups[i].key.exact_clone();
            let ghost prev = next.deep_view();
            next.push(Keyed { key, value: stripped });
            proof {
                assert forall|j: int| 0 <= j < i implies #[trigger] next.deep_view()[j] == prev[j] by {
                    assert(next.deep_view()[j] == next@[j].deep_view());
                    assert(prev[j] == next@[j].deep_view());
                }
                assert(next.deep_view()[i as int] == next@[i as int].deep_view());
            }
            i = i + 1;
        }
        self.groups = next;
        proof {
            let ng = self@.groups;
            assert forall|a: int, b: int| 0 <= a < b < ng.len() implies crate::text::lex_lt(
                #[trigger] ng[a].0,
                #[trigger] ng[b].0,
            ) by {
                assert(ng[a].0 == og[a].0 && ng[b].0 == og[b].0);
            }
        }
        match &user.resource.external_id {
            Some(external_id) => {
                let tombstone = ScimTombstone {
                    user_id: user.user_id.exact_clone(),
                    profile_mode: if user.profile_managed {
                        owned("manage")
                    } else {
                        owned("preserve")
                    },
                };
                self.record_tombstone(connection_id, external_id.as_str(), tombstone);
            },
            None => {},
        }
        Some(user)
    }

    /// Remembers the tombstone for an external id of a connection.
    fn record_tombstone(&mut self, connection_id: &str, external_id: &str, tombstone: ScimTombstone)
        requires
            old(self).wf(),
        ensures
            final(self).wf(),
            tombstone_of(final(self)@.tombstones, connection_id@, external_id@) == Some(tombstone@),
            forall|c: Seq<char>, e: Seq<char>|
                !(c == connection_id@ && e == external_id@) ==> #[trigger] tombstone_of(
                    final(self)@.tombstones,
                    c,
                    e,
                ) == tombstone_of(old(self)@.tombstones, c, e),
            old(self)@.changes_only(final(self)@, set![StoreField::Tombstones]),
    {
        let ghost ot = self@.tombstones;
        let mut inner: Vec<Keyed<ScimTombstone>> = match find_key(&self.tombstones, connection_id) {
            Some(i) => {
                proof {
                    assert(self@.tombstones[i as int] == self.tombstones@[i as int].deep_view());
                }
                self.tombstones[i].value.exact_clone()
            },
            None => Vec::new(),
        };
        let ghost oi = inner.deep_view();
        assert(sorted_keys(oi));
        upsert(&mut inner, owned(external_id), tombstone);
        let ghost ni = inner.deep_view();
        upsert(&mut self.tombstones, owned(connection_id), inner);
        proof {
            let nt = self@.tombstones;
            assert forall|j: int| 0 <= j < nt.len() implies sorted_keys(#[trigger] nt[j].1) by {
                if nt[j] != (connection_id@, ni) {
                    assert(ot.contains(nt[j]));
                    let k = choose|k: int| 0 <= k < ot.len() && ot[k] == nt[j];
                    assert(sorted_keys(ot[k].1));
                }
            }
            assert forall|c: Seq<char>, e: Seq<char>|
                !(c == connection_id@ && e == external_id@) implies #[trigger] tombstone_of(nt, c, e)
                == tombstone_of(ot, c, e) by {
                if c != connection_id@ {
                    assert(lookup(nt, c) == lookup(ot, c));
                } else {
                    assert(lookup(ni, e) == lookup(oi, e));
                }
            }
        }
    }

    /// The connection's users, by creation time and then resource id.
    pub fn list_users(&self, connection_id: &str) -> (r: Vec<StoredScimUser>)
        requires
            self.wf(),
        ensures
            stably_sorted(
                r.deep_view(),
                users_of_connection(self@.users, connection_id@),
                users_of_connection(self@.users, connection_id@).map_values(|u: StoredScimUserView| user_sort_key(u)),
                false,
            ),
    {
        let ghost s = self@.users;
        let ghost pred = |u: StoredScimUserView| u.connection_id == connection_id@;
        let mut selected: Vec<StoredScimUser> = Vec::new();
        let mut keys: Vec<Vec<SortPart>> = Vec::new();
        let mut i: usize = 0;
        while i < self.users.len()
            invariant
                s == self.users.deep_view(),
                pred == (|u: StoredScimUserView| u.connection_id == connection_id@),
                i <= s.len(),
                selected.deep_view() == values_of(s.take(i as int)).filter(pred),
                keys.deep_view() == selected.deep_view().map_values(|u: StoredScimUserView| user_sort_key(u)),
            decreases s.len() - i,
        {
            let u = &self.users[i].value;
            assert(s[i as int] == self.users@[i as int].deep_view());
            assert(values_of(s.take(i + 1)) =~= values_of(s.take(i as int)).push(u@));
            proof {
                lemma_filter_push(values_of(s.take(i as int)), u@, pred);
            }
            if str_eq(u.connection_id.as_str(), connection_id) {
                let ghost sel = selected.deep_view();
                let ghost ks = keys.deep_view();
                selected.push(u.exact_clone());
                keys.push(user_key(u));
                assert(selected.deep_view() =~= sel.push(u@));
                assert(keys.deep_view() =~= ks.push(user_sort_key(u@)));
                assert(keys.deep_view() =~= selected.deep_view().map_values(|u: StoredScimUserView| user_sort_key(u)));
            }
            i = i + 1;
        }
        assert(s.take(i as int) =~= s);
        sort_by_keys(&selected, &keys, false)
    }

    /// The connection's groups, by creation time and then resource id.
    pub fn list_groups(&self, connection_id: &str) -> (r: Vec<StoredScimGroup>)
        requires
            self.wf(),
        ensures
            stably_sorted(
                r.deep_view(),
                groups_of_connection(self@.groups, connection_id@),
                groups_of_connection(self@.groups, connection_id@).map_values(|g: StoredScimGroupView| group_sort_key(g)),
                false,
            ),
    {
        let ghost s = self@.groups;
        let ghost pred = |g: StoredScimGroupView| g.connection_id == connection_id@;
        let mut selected: Vec<StoredScimGroup> = Vec::new();
        let mut keys: Vec<Vec<SortPart>> = Vec::new();
        let mut i: usize = 0;
        while i < self.groups.len()
            invariant
                s == self.groups.deep_view(),
                pred == (|g: StoredScimGroupView| g.connection_id == connection_id@),
                i <= s.len(),
                selected.deep_view() == values_of(s.take(i as int)).filter(pred),
                keys.deep_view() == selected.deep_view().map_values(|g: StoredScimGroupView| group_sort_key(g)),
            decreases s.len() - i,
        {
            let g = &self.groups[i].value;
            assert(s[i as int] == self.groups@[i as int].deep_view());
            assert(values_of(s.take(i + 1)) =~= values_of(s.take(i as int)).push(g@));
            proof {
                lemma_filter_push(values_of(s.take(i as int)), g@, pred);
            }
            if str_eq(g.connection_id.as_str(), connection_id) {
                let ghost sel = selected.deep_view();
                let ghost ks = keys.deep_view();
                selected.push(g.exact_clone());
                keys.push(group_key(g));
                assert(selected.deep_view() =~= sel.push(g@));
                assert(keys.deep_view() =~= ks.push(group_sort_key(g@)));
                assert(keys.deep_view() =~= selected.deep_view().map_values(|g: StoredScimGroupView| group_sort_key(g)));
            }
            i = i + 1;
        }
        assert(s.take(i as int) =~= s);
        sort_by_keys(&selected, &keys, false)
    }

    /// Creates a managed connection with its first credential and events,
    /// once per creation request id.
    pub fn create_managed_connection(
        &mut self,
        creation_request_id: &str,
        connection: ScimManagedConnection,
        credential: ScimManagedCredential,
        events: Vec<ScimManagedConnectionEvent>,
    ) -> (r: Result<(ScimManagedConnection, ScimManagedCredential), ScimStoreError>)
        requires
            old(self).wf(),
        ensures
            final(self).wf(),
            old(self)@.creation_requests.contains(creation_request_id@) ==> {
                &&& r == Err::<(ScimManagedConnection, ScimManagedCredential), ScimStoreError>(
                    ScimStoreError::CreationRequestConflict,
                )
                &&& final(self)@ == old(self)@
            },
            !old(self)@.creation_requests.contains(creation_request_id@) ==> {
                &&& match r {
                    Ok(pair) => pair.0@ == connection@ && pair.1@ == credential@,
                    Err(_) => false,
                }
                &&& final(self)@.creation_requests == old(self)@.creation_requests.push(creation_request_id@)
                &&& as_map(final(self)@.connections) == as_map(old(self)@.connections).insert(
                    connection.connection_id@,
                    connection@,
                )
                &&& as_map(final(self)@.credentials) == as_map(old(self)@.credentials).insert(
                    credential.credential_id@,
                    credential@,
                )
                &&& final(self)@.events == old(self)@.events + events.deep_view()
            },
            old(self)@.changes_only(
                final(self)@,
                set![
                    StoreField::CreationRequests,
                    StoreField::Connections,
                    StoreField::Credentials,
                    StoreField::Events,
                ],
            ),
    {
        let ghost requests = self@.creation_requests;
        let mut i: usize = 0;
        while i < self.creation_requests.len()
            invariant
                self.wf(),
                requests == self.creation_requests.deep_view(),
                i <= requests.len(),
                forall|j: int| 0 <= j < i ==> requests[j] != creation_request_id@,
            decreases requests.len() - i,
        {
            assert(requests[i as int] == self.creation_requests@[i as int]@);
            if str_eq(self.creation_requests[i].as_str(), creation_request_id) {
                return Err(ScimStoreError::CreationRequestConflict);
            }
            i = i + 1;
        }
        let ghost prev_requests = self.creation_requests.deep_view();
        self.creation_requests.push(owned(creation_request_id));
        assert(self.creation_requests.deep_view() =~= prev_requests.push(creation_request_id@));
        let connection_copy = connection.exact_clone();
        let credential_copy = credential.exact_clone();
        upsert(&mut self.managed_connections, connection.connection_id.exact_clone(), connection);
        upsert(&mut self.managed_credentials, credential.credential_id.exact_clone(), credential);
        let ghost prev_events = self.managed_events.deep_view();
        let ghost mid = self@;
        let mut k: usize = 0;
        while k < events.len()
            invariant
                mid.wf(),
                mid.events == prev_events,
                mid.changes_only(self@, set![StoreField::Events]),
                k <= events@.len(),
                self.managed_events.deep_view() == prev_events + events.deep_view().take(k as int),
            decreases events@.len() - k,
        {
            let ghost before = self.managed_events.deep_view();
            self.managed_events.push(events[k].exact_clone());
            assert(self.managed_events.deep_view() =~= before.push(events@[k as int]@));
            assert(events.deep_view().take(k + 1) =~= events.deep_view().take(k as int).push(events@[k as int]@));
            assert(prev_events + events.deep_view().take(k + 1) =~= (prev_events + events.deep_view().take(k as int)).push(events@[k as int]@));
            k = k + 1;
        }
        assert(events.deep_view().take(k as int) =~= events.deep_view());
        Ok((connection_copy, credential_copy))
    }

    /// The managed connections of a provisioning domain, in key order.
    pub fn list_managed_connections(&self, provisioning_domain_id: &str) -> (r: Vec<ScimManagedConnection>)
        requires
            self.wf(),
        ensures
            r.deep_view() == connections_of_domain(self@.connections, provisioning_domain_id@),
    {
        let ghost s = self@.connections;
        let ghost pred = |c: ScimManagedConnectionView| c.provisioning_domain_id == provisioning_domain_id@;
        let mut selected: Vec<ScimManagedConnection> = Vec::new();
        let mut i: usize = 0;
        while i < self.managed_connections.len()
            invariant
                s == self.managed_connections.deep_view(),
                pred == (|c: ScimManagedConnectionView| c.provisioning_domain_id == provisioning_domain_id@),
                i <= s.len(),
                selected.deep_view() == values_of(s.take(i as int)).filter(pred),
            decreases s.len() - i,
        {
            let c = &self.managed_connections[i].value;
            assert(s[i as int] == self.managed_connections@[i as int].deep_view());
            assert(values_of(s.take(i + 1)) =~= values_of(s.take(i as int)).push(c@));
            proof {
                lemma_filter_push(values_of(s.take(i as int)), c@, pred);
            }
            if str_eq(c.provisioning_domain_id.as_str(), provisioning_domain_id) {
                let ghost sel = selected.deep_view();
                selected.push(c.exact_clone());
                assert(selected.deep_view() =~= sel.push(c@));
            }
            i = i + 1;
        }
        assert(s.take(i as int) =~= s);
        selected
    }

    /// The managed connection `connection_id` of the domain, if any.
    pub fn find_managed_connection(&self, connection_id: &str, provisioning_domain_id: &str) -> (r: Option<
        ScimManagedConnection,
    >)
        requires
            self.wf(),
        ensures
            r.deep_view() == connection_in_domain(self@.connections, connection_id@, provisioning_domain_id@),
    {
        match find_key(&self.managed_connections, connection_id) {
            Some(i) => {
                let c = &self.managed_connections[i].value;
                if str_eq(c.provisioning_domain_id.as_str(), provisioning_domain_id) {
                    Some(c.exact_clone())
                } else {
                    None
                }
            },
            None => None,
        }
    }

    /// The credentials of a managed connection record, in key order.
    pub fn list_managed_credentials(&self, connection_record_id: &str) -> (r: Vec<ScimManagedCredential>)
        requires
            self.wf(),
        ensures
            r.deep_view() == credentials_of_record(self@.credentials, connection_record_id@),
    {
        let ghost s = self@.credentials;
        let ghost pred = |c: ScimManagedCredentialView| c.connection_record_id == connection_record_id@;
        let mut selected: Vec<ScimManagedCredential> = Vec::new();
        let mut i: usize = 0;
        while i < self.managed_credentials.len()
            invariant
                s == self.managed_credentials.deep_view(),
                pred == (|c: ScimManagedCredentialView| c.connection_record_id == connection_record_id@),
                i <= s.len(),
                selected.deep_view() == values_of(s.take(i as int)).filter(pred),
            decreases s.len() - i,
        {
            let c = &self.managed_credentials[i].value;
            assert(s[i as int] == self.managed_credentials@[i as int].deep_view());
            assert(values_of(s.take(i + 1)) =~= values_of(s.take(i as int)).push(c@));
            proof {
                lemma_filter_push(values_of(s.take(i as int)), c@, pred);
            }
            if str_eq(c.connection_record_id.as_str(), connection_record_id) {
                let ghost sel = selected.deep_view();
                selected.push(c.exact_clone());
                assert(selected.deep_view() =~= sel.push(c@));
            }
            i = i + 1;
        }
        assert(s.take(i as int) =~= s);
        selected
    }

    /// Position of the first managed connection, in key order, with record
    /// id `record_id`.
    fn position_of_record(&self, record_id: &str) -> (r: Option<usize>)
        requires
            self.wf(),
        ensures
            match r {
                Some(i) => i < self@.connections.len() && connection_by_record(self@.connections, record_id@)
                    == Some(self@.connections[i as int].1),
                None => connection_by_record(self@.connections, record_id@) is None,
            },
    {
        let ghost s = self@.connections;
        let mut i: usize = 0;
        assert(s.skip(0) =~= s);
        while i < self.managed_connections.len()
            invariant
                s == self.managed_connections.deep_view(),
                i <= s.len(),
                connection_by_record(s, record_id@) == connection_by_record(s.skip(i as int), record_id@),
            decreases s.len() - i,
        {
            assert(s[i as int] == self.managed_connections@[i as int].deep_view());
            assert(s.skip(i as int)[0] == s[i as int]);
            assert(s.skip(i as int).drop_first() =~= s.skip(i + 1));
            if str_eq(self.managed_connections[i].value.id.as_str(), record_id) {
                return Some(i);
            }
            i = i + 1;
        }
        assert(s.skip(i as int).len() == 0);
        None
    }

    /// The credential `credential_id` with the connection it belongs to.
    pub fn find_managed_credential(&self, credential_id: &str) -> (r: Option<
        (ScimManagedConnection, ScimManagedCredential),
    >)
        requires
            self.wf(),
        ensures
            r.deep_view() == (match lookup(self@.credentials, credential_id@) {
                Some(c) => match connection_by_record(self@.connections, c.connection_record_id) {
                    Some(conn) => Some((conn, c)),
                    None => None,
                },
                None => None,
            }),
    {
        let k = match find_key(&self.managed_credentials, credential_id) {
            Some(k) => k,
            None => return None,
        };
        let credential = &self.managed_credentials[k].value;
        match self.position_of_record(credential.connection_record_id.as_str()) {
            Some(i) => {
                assert(self@.connections[i as int] == self.managed_connections@[i as int].deep_view());
                Some((self.managed_connections[i].value.exact_clone(), credential.exact_clone()))
            },
            None => None,
        }
    }

    /// Marks the record's active credentials that expired by `now` as
    /// `"expired"`.
    fn expire_credentials(&mut self, record_id: &str, now: i64)
        requires
            old(self).wf(),
        ensures
            final(self).wf(),
            final(self)@.credentials == expire_due(old(self)@.credentials, record_id@, now),
            old(self)@.changes_only(final(self)@, set![StoreField::Credentials]),
    {
        let ghost s = self@.credentials;
        let mut next: Vec<Keyed<ScimManagedCredential>> = Vec::new();
        let mut i: usize = 0;
        while i < self.managed_credentials.len()
            invariant
                s == self.managed_credentials.deep_view(),
                i <= s.len(),
                next.deep_view() == expire_due(s, record_id@, now).take(i as int),
            decreases s.len() - i,
        {
            let c = &self.managed_credentials[i].value;
            assert(s[i as int] == self.managed_credentials@[i as int].deep_view());
            let due = str_eq(c.connection_record_id.as_str(), record_id) && str_eq(c.status.as_str(), "active")
                && c.expires_at <= now;
            let value = if due {
                with_status(c, "expired")
            } else {
                c.exact_clone()
            };
            let ghost before = next.deep_view();
            next.push(Keyed { key: self.managed_credentials[i].key.exact_clone(), value });
            assert(next.deep_view() =~= expire_due(s, record_id@, now).take(i + 1)) by {
                assert(next.deep_view() =~= before.push(next@[i as int].deep_view()));
            }
            i = i + 1;
        }
        assert(expire_due(s, record_id@, now).take(i as int) =~= expire_due(s, record_id@, now));
        self.managed_credentials = next;
        proof {
            let t = self@.credentials;
            assert forall|a: int, b: int| 0 <= a < b < t.len() implies crate::text::lex_lt(
                #[trigger] t[a].0,
                #[trigger] t[b].0,
            ) by {
                assert(t[a].0 == s[a].0 && t[b].0 == s[b].0);
            }
        }
    }

    /// The number of active credentials of the record.
    fn count_active(&self, record_id: &str) -> (n: usize)
        requires
            self.wf(),
        ensures
            n == active_count(self@.credentials, record_id@),
    {
        let ghost s = self@.credentials;
        let ghost p = |c: ScimManagedCredentialView| active_for(c, record_id@);
        let mut n: usize = 0;
        let mut i: usize = 0;
        assert(values_of(s.take(0)) =~= Seq::<ScimManagedCredentialView>::empty());
        while i < self.managed_credentials.len()
            invariant
                s == self.managed_credentials.deep_view(),
                p == (|c: ScimManagedCredentialView| active_for(c, record_id@)),
                i <= s.len(),
                n == count_where(values_of(s.take(i as int)), p),
                n <= i,
            decreases s.len() - i,
        {
            let c = &self.managed_credentials[i].value;
            assert(s[i as int] == self.managed_credentials@[i as int].deep_view());
            assert(values_of(s.take(i + 1)) =~= values_of(s.take(i as int)).push(c@));
            proof {
                lemma_count_where_push(values_of(s.take(i as int)), p, c@);
            }
            if str_eq(c.connection_record_id.as_str(), record_id) && str_eq(c.status.as_str(), "active") {
                n = n + 1;
            }
            i = i + 1;
        }
        assert(s.take(i as int) =~= s);
        n
    }

    /// Issues `credential` for the domain's managed connection: expired
    /// credentials are marked first, and the rotation is refused while
    /// `maximum` credentials are still active.
    pub fn rotate_managed_credential(
        &mut self,
        connection_id: &str,
        provisioning_domain_id: &str,
        credential: ScimManagedCredential,
        event: ScimManagedConnectionEvent,
        maximum: usize,
        now: i64,
    ) -> (r: Result<(ScimManagedConnection, ScimManagedCredential), ScimStoreError>)
        requires
            old(self).wf(),
            connection_in_domain(old(self)@.connections, connection_id@, provisioning_domain_id@) matches Some(
                c,
            ) ==> c.revision < u64::MAX,
        ensures
            final(self).wf(),
            match connection_in_domain(old(self)@.connections, connection_id@, provisioning_domain_id@) {
                None => r == Err::<(ScimManagedConnection, ScimManagedCredential), ScimStoreError>(
                    ScimStoreError::NotFound,
                ) && final(self)@ == old(self)@,
                Some(c) => if c.status != "active"@ {
                    r == Err::<(ScimManagedConnection, ScimManagedCredential), ScimStoreError>(
                        ScimStoreError::Decommissioned,
                    ) && final(self)@ == old(self)@
                } else {
                    let expired = expire_due(old(self)@.credentials, c.id, now);
                    if active_count(expired, c.id) >= maximum {
                        &&& r == Err::<(ScimManagedConnection, ScimManagedCredential), ScimStoreError>(
                            ScimStoreError::CredentialLimit,
                        )
                        &&& final(self)@.credentials == expired
                        &&& old(self)@.changes_only(final(self)@, set![StoreField::Credentials])
                    } else {
                        let updated = ScimManagedConnectionView { revision: (c.revision + 1) as u64, ..c };
                        &&& match r {
                            Ok(pair) => pair.0@ == updated && pair.1@ == credential@,
                            Err(_) => false,
                        }
                        &&& as_map(final(self)@.connections) == as_map(old(self)@.connections).insert(
                            connection_id@,
                            updated,
                        )
                        &&& as_map(final(self)@.credentials) == as_map(expired).insert(
                            credential.credential_id@,
                            credential@,
                        )
                        &&& final(self)@.events == old(self)@.events.push(event@)
                        &&& active_count(final(self)@.credentials, c.id) <= maximum
                    }
                },
            },
            old(self)@.changes_only(
                final(self)@,
                set![StoreField::Connections, StoreField::Credentials, StoreField::Events],
            ),
    {
        let connection = match self.find_managed_connection(connection_id, provisioning_domain_id) {
            Some(c) => c,
            None => return Err(ScimStoreError::NotFound),
        };
        if !str_eq(connection.status.as_str(), "active") {
            return Err(ScimStoreError::Decommissioned);
        }
        self.expire_credentials(connection.id.as_str(), now);
        let active = self.count_active(connection.id.as_str());
        if active >= maximum {
            return Err(ScimStoreError::CredentialLimit);
        }
        let updated = with_revision(&connection, connection.revision + 1);
        let updated_copy = updated.exact_clone();
        upsert(&mut self.managed_connections, owned(connection_id), updated);
        let credential_copy = credential.exact_clone();
        let ghost expired = self@.credentials;
        let ghost entry = (credential.credential_id@, credential@);
        upsert(&mut self.managed_credentials, credential.credential_id.exact_clone(), credential);
        proof {
            lemma_active_count_after_upsert(expired, self@.credentials, entry, connection.id@);
        }
        let ghost prev_events = self.managed_events.deep_view();
        self.managed_events.push(event);
        assert(self.managed_events.deep_view() =~= prev_events.push(event@));
        Ok((updated_copy, credential_copy))
    }

    /// The number of events of the record.
    fn count_events(&self, record_id: &str) -> (n: usize)
        ensures
            n == event_count(self@.events, record_id@),
            n <= self@.events.len(),
    {
        let ghost s = self@.events;
        let ghost p = |e: ScimManagedConnectionEventView| e.connection_record_id == record_id@;
        let mut n: usize = 0;
        let mut i: usize = 0;
        assert(s.take(0) =~= Seq::<ScimManagedConnectionEventView>::empty());
        while i < self.managed_events.len()
            invariant
                s == self.managed_events.deep_view(),
                p == (|e: ScimManagedConnectionEventView| e.connection_record_id == record_id@),
                i <= s.len(),
                n == count_where(s.take(i as int), p),
                n <= i,
            decreases s.len() - i,
        {
            assert(s[i as int] == self.managed_events@[i as int].deep_view());
            assert(s.take(i + 1) =~= s.take(i as int).push(s[i as int]));
            proof {
                lemma_count_where_push(s.take(i as int), p, s[i as int]);
            }
            if str_eq(self.managed_events[i].connection_record_id.as_str(), record_id) {
                n = n + 1;
            }
            i = i + 1;
        }
        assert(s.take(i as int) =~= s);
        n
    }

    /// Revokes the record's active credential `credential_id`, logging a
    /// `"credential.revoked"` event with the id `event_id` and the next
    /// sequence number of the record, which becomes the connection's
    /// revision. A credential revoked before is returned as it is.
    pub fn revoke_managed_credential(
        &mut self,
        connection_record_id: &str,
        credential_id: &str,
        actor_id: &str,
        now: i64,
        event_id: String,
    ) -> (r: Result<ScimManagedCredential, ScimStoreError>)
        requires
            old(self).wf(),
            old(self)@.events.len() < u64::MAX,
        ensures
            final(self).wf(),
            match connection_by_record(old(self)@.connections, connection_record_id@) {
                None => r == Err::<ScimManagedCredential, ScimStoreError>(ScimStoreError::NotFound)
                    && final(self)@ == old(self)@,
                Some(conn) => if conn.status != "active"@ {
                    r == Err::<ScimManagedCredential, ScimStoreError>(ScimStoreError::Decommissioned)
                        && final(self)@ == old(self)@
                } else {
                    match credential_of_record(old(self)@.credentials, connection_record_id@, credential_id@) {
                        None => r == Err::<ScimManagedCredential, ScimStoreError>(
                            ScimStoreError::CredentialNotFound,
                        ) && final(self)@ == old(self)@,
                        Some(c) => if c.status == "revoked"@ {
                            stored(r) == Ok::<ScimManagedCredentialView, ScimStoreError>(c)
                                && final(self)@ == old(self)@
                        } else if c.status != "active"@ {
                            r == Err::<ScimManagedCredential, ScimStoreError>(ScimStoreError::CredentialLimit)
                                && final(self)@ == old(self)@
                        } else {
                            let revoked = ScimManagedCredentialView {
                                status: "revoked"@,
                                revoked_at: Some(now),
                                revoked_by: Some(actor_id@),
                                ..c
                            };
                            let sequence = (event_count(old(self)@.events, connection_record_id@) + 1) as u64;
                            &&& stored(r) == Ok::<ScimManagedCredentialView, ScimStoreError>(revoked)
                            &&& as_map(final(self)@.credentials) == as_map(old(self)@.credentials).insert(
                                credential_id@,
                                revoked,
                            )
                            &&& final(self)@.events == old(self)@.events.push(
                                ScimManagedConnectionEventView {
                                    id: event_id@,
                                    connection_record_id: connection_record_id@,
                                    sequence,
                                    kind: "credential.revoked"@,
                                    actor_id: actor_id@,
                                    credential_id: Some(credential_id@),
                                    created_at: now,
                                },
                            )
                            &&& as_map(final(self)@.connections) == match lookup(
                                old(self)@.connections,
                                conn.connection_id,
                            ) {
                                Some(target) => as_map(old(self)@.connections).insert(
                                    conn.connection_id,
                                    ScimManagedConnectionView { revision: sequence, ..target },
                                ),
                                None => as_map(old(self)@.connections),
                            }
                        }
                    }
                },
            },
            old(self)@.changes_only(
                final(self)@,
                set![StoreField::Connections, StoreField::Credentials, StoreField::Events],
            ),
    {
        let position = match self.position_of_record(connection_record_id) {
            Some(i) => i,
            None => return Err(ScimStoreError::NotFound),
        };
        assert(self@.connections[position as int] == self.managed_connections@[position as int].deep_view());
        if !str_eq(self.managed_connections[position].value.status.as_str(), "active") {
            return Err(ScimStoreError::Decommissioned);
        }
        let target_key = self.managed_connections[position].value.connection_id.exact_clone();
        let k = match find_key(&self.managed_credentials, credential_id) {
            Some(k) => k,
            None => return Err(ScimStoreError::CredentialNotFound),
        };
        let credential = &self.managed_credentials[k].value;
        if !str_eq(credential.connection_record_id.as_str(), connection_record_id) {
            return Err(ScimStoreError::CredentialNotFound);
        }
        if str_eq(credential.status.as_str(), "revoked") {
            return Ok(credential.exact_clone());
        }
        if !str_eq(credential.status.as_str(), "active") {
            return Err(ScimStoreError::CredentialLimit);
        }
        let mut revoked = with_status(credential, "revoked");
        revoked.revoked_at = Some(now);
        revoked.revoked_by = Some(owned(actor_id));
        let output = revoked.exact_clone();
        let count = self.count_events(connection_record_id);
        let sequence = count as u64 + 1;
        upsert(&mut self.managed_credentials, owned(credential_id), revoked);
        let ghost prev_events = self.managed_events.deep_view();
        let event = ScimManagedConnectionEvent {
            id: event_id,
            connection_record_id: owned(connection_record_id),
            sequence,
            kind: owned("credential.revoked"),
            actor_id: owned(actor_id),
            credential_id: Some(owned(credential_id)),
            created_at: now,
        };
        self.managed_events.push(event);
        assert(self.managed_events.deep_view() =~= prev_events.push(event@));
        match find_key(&self.managed_connections, target_key.as_str()) {
            Some(t) => {
                let updated = with_revision(&self.managed_connections[t].value, sequence);
                upsert(&mut self.managed_connections, target_key, updated);
            },
            None => {
                proof {
                    crate::keyed::lemma_as_map_from_lookup(self@.connections, self@.connections);
                }
            },
        }
        Ok(output)
    }

    /// Stamps the credential's last use with `now`, unless it was used less
    /// than `minimum_interval_seconds` seconds before.
    pub fn touch_managed_credential(&mut self, credential_id: &str, now: i64, minimum_interval_seconds: u64) -> (r:
        Result<(), ScimStoreError>)
        requires
            old(self).wf(),
            -(i64::MAX / 1000) <= minimum_interval_seconds as i64 <= i64::MAX / 1000,
        ensures
            final(self).wf(),
            match lookup(old(self)@.credentials, credential_id@) {
                None => r == Err::<(), ScimStoreError>(ScimStoreError::CredentialNotFound) && final(self)@
                    == old(self)@,
                Some(c) => r is Ok && if touch_due(c.last_used_at, now, minimum_interval_seconds as i64) {
                    as_map(final(self)@.credentials) == as_map(old(self)@.credentials).insert(
                        credential_id@,
                        ScimManagedCredentialView { last_used_at: Some(now), ..c },
                    )
                } else {
                    final(self)@ == old(self)@
                },
            },
            old(self)@.changes_only(final(self)@, set![StoreField::Credentials]),
    {
        let k = match find_key(&self.managed_credentials, credential_id) {
            Some(k) => k,
            None => return Err(ScimStoreError::CredentialNotFound),
        };
        let seconds = minimum_interval_seconds as i64;
        let threshold = seconds * 1000;
        let due = match self.managed_credentials[k].value.last_used_at {
            None => true,
            Some(last) => (now as i128) - (last as i128) >= threshold as i128,
        };
        if due {
            let mut touched = self.managed_credentials[k].value.exact_clone();
            touched.last_used_at = Some(now);
            upsert(&mut self.managed_credentials, owned(credential_id), touched);
        }
        Ok(())
    }

    /// The record's events, newest first by sequence number, at most
    /// `EVENT_PAGE` of them.
    pub fn list_managed_events(&self, connection_record_id: &str) -> (r: Vec<ScimManagedConnectionEvent>)
        requires
            self.wf(),
        ensures
            event_page(self@.events, connection_record_id@, r.deep_view()),
    {
        let ghost s = self@.events;
        let ghost pred = |e: ScimManagedConnectionEventView| e.connection_record_id == connection_record_id@;
        let mut selected: Vec<ScimManagedConnectionEvent> = Vec::new();
        let mut keys: Vec<Vec<SortPart>> = Vec::new();
        let mut i: usize = 0;
        while i < self.managed_events.len()
            invariant
                s == self.managed_events.deep_view(),
                pred == (|e: ScimManagedConnectionEventView| e.connection_record_id == connection_record_id@),
                i <= s.len(),
                selected.deep_view() == s.take(i as int).filter(pred),
                keys.deep_view() == selected.deep_view().map_values(
                    |e: ScimManagedConnectionEventView| event_sort_key(e),
                ),
            decreases s.len() - i,
        {
            let e = &self.managed_events[i];
            assert(s[i as int] == self.managed_events@[i as int].deep_view());
            assert(s.take(i + 1) =~= s.take(i as int).push(e@));
            proof {
                lemma_filter_push(s.take(i as int), e@, pred);
            }
            if str_eq(e.connection_record_id.as_str(), connection_record_id) {
                let ghost sel = selected.deep_view();
                let ghost ks = keys.deep_view();
                selected.push(e.exact_clone());
                let key = vec![SortPart::Int(e.sequence as i64)];
                assert(key.deep_view() =~= event_sort_key(e@));
                keys.push(key);
                assert(selected.deep_view() =~= sel.push(e@));
                assert(keys.deep_view() =~= ks.push(event_sort_key(e@)));
                assert(keys.deep_view() =~= selected.deep_view().map_values(
                    |e: ScimManagedConnectionEventView| event_sort_key(e),
                ));
            }
            i = i + 1;
        }
        assert(s.take(i as int) =~= s);
        let mut sorted = sort_by_keys(&selected, &keys, true);
        let ghost all = sorted.deep_view();
        if sorted.len() > EVENT_PAGE {
            sorted.truncate(EVENT_PAGE);
        }
        assert(sorted.deep_view() =~= all.take(sorted@.len() as int));
        sorted
    }

    /// Marks the record's credentials as `"decommissioned"`: all of them, or
    /// only the active ones.
    fn retire_record_credentials(&mut self, record_id: &Option<String>, only_active: bool)
        requires
            old(self).wf(),
        ensures
            final(self).wf(),
            final(self)@.credentials == retire_credentials(
                old(self)@.credentials,
                record_id.deep_view(),
                only_active,
            ),
            old(self)@.changes_only(final(self)@, set![StoreField::Credentials]),
    {
        let ghost s = self@.credentials;
        let ghost target = retire_credentials(s, record_id.deep_view(), only_active);
        let mut next: Vec<Keyed<ScimManagedCredential>> = Vec::new();
        let mut i: usize = 0;
        while i < self.managed_credentials.len()
            invariant
                s == self.managed_credentials.deep_view(),
                target == retire_credentials(s, record_id.deep_view(), only_active),
                i <= s.len(),
                next.deep_view() == target.take(i as int),
            decreases s.len() - i,
        {
            let c = &self.managed_credentials[i].value;
            assert(s[i as int] == self.managed_credentials@[i as int].deep_view());
            let matches = match record_id {
                Some(id) => str_eq(id.as_str(), c.connection_record_id.as_str()),
                None => false,
            };
            let retire = matches && (!only_active || str_eq(c.status.as_str(), "active"));
            let value = if retire {
                with_status(c, "decommissioned")
            } else {
                c.exact_clone()
            };
            let ghost before = next.deep_view();
            next.push(Keyed { key: self.managed_credentials[i].key.exact_clone(), value });
            assert(next.deep_view() =~= target.take(i + 1)) by {
                assert(next.deep_view() =~= before.push(next@[i as int].deep_view()));
            }
            i = i + 1;
        }
        assert(target.take(i as int) =~= target);
        self.managed_credentials = next;
        proof {
            let t = self@.credentials;
            assert forall|a: int, b: int| 0 <= a < b < t.len() implies crate::text::lex_lt(
                #[trigger] t[a].0,
                #[trigger] t[b].0,
            ) by {
                assert(t[a].0 == s[a].0 && t[b].0 == s[b].0);
            }
        }
    }

    /// Decommissions a connection of the domain: its binding records `now`,
    /// its users with resource ids are removed (their number is returned),
    /// and its managed record, if any, is decommissioned with its
    /// credentials.
    pub fn decommission_connection(&mut self, connection_id: &str, provisioning_domain_id: &str, now: i64) -> (r:
        Result<usize, ScimStoreError>)
        requires
            old(self).wf(),
            lookup(old(self)@.connections, connection_id@) matches Some(c) ==> c.revision < u64::MAX,
        ensures
            final(self).wf(),
            match lookup(old(self)@.bindings, connection_id@) {
                None => r == Err::<usize, ScimStoreError>(ScimStoreError::NotFound) && final(self)@ == old(self)@,
                Some(b) => if b.provisioning_domain_id != provisioning_domain_id@ {
                    r == Err::<usize, ScimStoreError>(ScimStoreError::NotFound) && final(self)@ == old(self)@
                } else {
                    let ids = user_ids_of_connection(old(self)@.users, connection_id@);
                    &&& r == Ok::<usize, ScimStoreError>(ids.len() as usize)
                    &&& as_map(final(self)@.bindings) == as_map(old(self)@.bindings).insert(
                        connection_id@,
                        ScimConnectionBindingView { decommissioned_at: Some(now), ..b },
                    )
                    &&& as_map(final(self)@.users) == as_map(old(self)@.users).remove_keys(ids.to_set())
                    &&& final(self)@.credentials == retire_credentials(
                        old(self)@.credentials,
                        record_of(old(self)@.connections, connection_id@),
                        false,
                    )
                    &&& as_map(final(self)@.connections) == match lookup(old(self)@.connections, connection_id@) {
                        Some(c) => as_map(old(self)@.connections).insert(
                            connection_id@,
                            ScimManagedConnectionView {
                                status: "decommissioned"@,
                                revision: (c.revision + 1) as u64,
                                ..c
                            },
                        ),
                        None => as_map(old(self)@.connections),
                    }
                },
            },
            old(self)@.changes_only(
                final(self)@,
                set![
                    StoreField::Bindings,
                    StoreField::Users,
                    StoreField::Credentials,
                    StoreField::Connections,
                ],
            ),
    {
        let k = match find_key(&self.bindings, connection_id) {
            Some(k) => k,
            None => return Err(ScimStoreError::NotFound),
        };
        if !str_eq(self.bindings[k].value.provisioning_domain_id.as_str(), provisioning_domain_id) {
            return Err(ScimStoreError::NotFound);
        }
        let mut binding = self.bindings[k].value.exact_clone();
        binding.decommissioned_at = Some(now);
        upsert(&mut self.bindings, owned(connection_id), binding);
        let ghost s = self@.users;
        let ghost pred = |u: StoredScimUserView| u.connection_id == connection_id@ && u.resource.id is Some;
        let mut ids: Vec<String> = Vec::new();
        let mut i: usize = 0;
        while i < self.users.len()
            invariant
                s == self.users.deep_view(),
                pred == (|u: StoredScimUserView| u.connection_id == connection_id@ && u.resource.id is Some),
                i <= s.len(),
                ids.deep_view() == values_of(s.take(i as int)).filter(pred).map_values(
                    |u: StoredScimUserView| u.resource.id->0,
                ),
                ids@.len() <= i,
            decreases s.len() - i,
        {
            let u = &self.users[i].value;
            assert(s[i as int] == self.users@[i as int].deep_view());
            assert(values_of(s.take(i + 1)) =~= values_of(s.take(i as int)).push(u@));
            proof {
                lemma_filter_push(values_of(s.take(i as int)), u@, pred);
            }
            if str_eq(u.connection_id.as_str(), connection_id) {
                match &u.resource.id {
                    Some(id) => {
                        let ghost before = ids.deep_view();
                        ids.push(id.exact_clone());
                        assert(ids.deep_view() =~= before.push(id@));
                        assert(ids.deep_view() =~= values_of(s.take(i + 1)).filter(pred).map_values(
                            |u: StoredScimUserView| u.resource.id->0,
                        ));
                    },
                    None => {},
                }
            }
            i = i + 1;
        }
        assert(s.take(i as int) =~= s);
        remove_all(&mut self.users, &ids);
        let record_id = match find_key(&self.managed_connections, connection_id) {
            Some(c) => Some(self.managed_connections[c].value.id.exact_clone()),
            None => None,
        };
        self.retire_record_credentials(&record_id, false);
        match find_key(&self.managed_connections, connection_id) {
            Some(c) => {
                let mut connection = self.managed_connections[c].value.exact_clone();
                connection.status = owned("decommissioned");
                connection.revision = connection.revision + 1;
                upsert(&mut self.managed_connections, owned(connection_id), connection);
            },
            None => {
                proof {
                    crate::keyed::lemma_as_map_from_lookup(self@.connections, self@.connections);
                }
            },
        }
        Ok(ids.len())
    }

    /// Removes every entry of the connection's users and groups.
    fn remove_connection_resources(&mut self, connection_id: &str)
        requires
            old(self).wf(),
        ensures
            final(self).wf(),
            as_map(final(self)@.users) == as_map(old(self)@.users).remove_keys(
                user_keys_of_connection(old(self)@.users, connection_id@).to_set(),
            ),
            as_map(final(self)@.groups) == as_map(old(self)@.groups).remove_keys(
                group_keys_of_connection(old(self)@.groups, connection_id@).to_set(),
            ),
            old(self)@.changes_only(final(self)@, set![StoreField::Users, StoreField::Groups]),
    {
        let ghost s = self@.users;
        let ghost pred = |e: (Seq<char>, StoredScimUserView)| e.1.connection_id == connection_id@;
        let mut keys: Vec<String> = Vec::new();
        let mut i: usize = 0;
        while i < self.users.len()
            invariant
                s == self.users.deep_view(),
                pred == (|e: (Seq<char>, StoredScimUserView)| e.1.connection_id == connection_id@),
                i <= s.len(),
                keys.deep_view() == s.take(i as int).filter(pred).map_values(
                    |e: (Seq<char>, StoredScimUserView)| e.0,
                ),
            decreases s.len() - i,
        {
            assert(s[i as int] == self.users@[i as int].deep_view());
            assert(s.take(i + 1) =~= s.take(i as int).push(s[i as int]));
            proof {
                lemma_filter_push(s.take(i as int), s[i as int], pred);
            }
            if str_eq(self.users[i].value.connection_id.as_str(), connection_id) {
                let ghost before = keys.deep_view();
                keys.push(self.users[i].key.exact_clone());
                assert(keys.deep_view() =~= before.push(s[i as int].0));
                assert(keys.deep_view() =~= s.take(i + 1).filter(pred).map_values(
                    |e: (Seq<char>, StoredScimUserView)| e.0,
                ));
            }
            i = i + 1;
        }
        assert(s.take(i as int) =~= s);
        remove_all(&mut self.users, &keys);
        let ghost g = self@.groups;
        let ghost gpred = |e: (Seq<char>, StoredScimGroupView)| e.1.connection_id == connection_id@;
        let mut group_keys: Vec<String> = Vec::new();
        let mut j: usize = 0;
        while j < self.groups.len()
            invariant
                g == self.groups.deep_view(),
                gpred == (|e: (Seq<char>, StoredScimGroupView)| e.1.connection_id == connection_id@),
                j <= g.len(),
                group_keys.deep_view() == g.take(j as int).filter(gpred).map_values(
                    |e: (Seq<char>, StoredScimGroupView)| e.0,
                ),
            decreases g.len() - j,
        {
            assert(g[j as int] == self.groups@[j as int].deep_view());
            assert(g.take(j + 1) =~= g.take(j as int).push(g[j as int]));
            proof {
                lemma_filter_push(g.take(j as int), g[j as int], gpred);
            }
            if str_eq(self.groups[j].value.connection_id.as_str(), connection_id) {
                let ghost before = group_keys.deep_view();
                group_keys.push(self.groups[j].key.exact_clone());
                assert(group_keys.deep_view() =~= before.push(g[j as int].0));
                assert(group_keys.deep_view() =~= g.take(j + 1).filter(gpred).map_values(
                    |e: (Seq<char>, StoredScimGroupView)| e.0,
                ));
            }
            j = j + 1;
        }
        assert(g.take(j as int) =~= g);
        remove_all(&mut self.groups, &group_keys);
    }

    /// Decommissions the domain's managed connection on behalf of
    /// `actor_id`: its active credentials, users and groups go, its binding
    /// records `now`, and one or two events (with the ids given) record the
    /// steps. A decommissioned connection is returned as it is.
    pub fn decommission_managed_connection(
        &mut self,
        connection_id: &str,
        provisioning_domain_id: &str,
        actor_id: &str,
        now: i64,
        first_event_id: String,
        second_event_id: String,
    ) -> (r: Result<ScimManagedConnection, ScimStoreError>)
        requires
            old(self).wf(),
            connection_in_domain(old(self)@.connections, connection_id@, provisioning_domain_id@) matches Some(
                c,
            ) ==> (c.status != "decommissioned"@ ==> c.revision < u64::MAX - 1),
        ensures
            final(self).wf(),
            match connection_in_domain(old(self)@.connections, connection_id@, provisioning_domain_id@) {
                None => r == Err::<ScimManagedConnection, ScimStoreError>(ScimStoreError::NotFound)
                    && final(self)@ == old(self)@,
                Some(c) => if c.status == "decommissioned"@ {
                    stored(r) == Ok::<ScimManagedConnectionView, ScimStoreError>(c) && final(self)@ == old(self)@
                } else {
                    let started = decommissioning_step(c, actor_id@, now);
                    let done = decommissioned_step(started, actor_id@, now);
                    let first_events = if c.status == "active"@ {
                        seq![connection_event(first_event_id@, started, "connection.decommissioning"@, actor_id@, now)]
                    } else {
                        Seq::empty()
                    };
                    &&& stored(r) == Ok::<ScimManagedConnectionView, ScimStoreError>(done)
                    &&& final(self)@.events == old(self)@.events + first_events + seq![
                        connection_event(second_event_id@, done, "connection.decommissioned"@, actor_id@, now),
                    ]
                    &&& final(self)@.credentials == retire_credentials(old(self)@.credentials, Some(c.id), true)
                    &&& as_map(final(self)@.users) == as_map(old(self)@.users).remove_keys(
                        user_keys_of_connection(old(self)@.users, connection_id@).to_set(),
                    )
                    &&& as_map(final(self)@.groups) == as_map(old(self)@.groups).remove_keys(
                        group_keys_of_connection(old(self)@.groups, connection_id@).to_set(),
                    )
                    &&& as_map(final(self)@.bindings) == as_map(old(self)@.bindings).insert(
                        connection_id@,
                        ScimConnectionBindingView {
                            connection_id: connection_id@,
                            provisioning_domain_id: provisioning_domain_id@,
                            decommissioned_at: Some(now),
                        },
                    )
                    &&& as_map(final(self)@.connections) == as_map(old(self)@.connections).insert(
                        connection_id@,
                        done,
                    )
                }
            },
            old(self)@.changes_only(
                final(self)@,
                set![
                    StoreField::Bindings,
                    StoreField::Users,
                    StoreField::Groups,
                    StoreField::Credentials,
                    StoreField::Connections,
                    StoreField::Events,
                ],
            ),
    {
        let mut connection = match self.find_managed_connection(connection_id, provisioning_domain_id) {
            Some(c) => c,
            None => return Err(ScimStoreError::NotFound),
        };
        if str_eq(connection.status.as_str(), "decommissioned") {
            return Ok(connection);
        }
        let ghost prev_events = self@.events;
        if str_eq(connection.status.as_str(), "active") {
            connection.status = owned("decommissioning");
            connection.revision = connection.revision + 1;
            connection.decommission_started_at = Some(now);
            connection.decommission_started_by = Some(owned(actor_id));
            let event = connection_event_of(first_event_id, &connection, "connection.decommissioning", actor_id, now);
            let ghost ev = event@;
            self.managed_events.push(event);
            assert(self@.events =~= prev_events + seq![ev]);
        } else {
            assert(self@.events =~= prev_events + Seq::<ScimManagedConnectionEventView>::empty());
        }
        let ghost after_first = self@.events;
        let record_id = Some(connection.id.exact_clone());
        self.retire_record_credentials(&record_id, true);
        self.remove_connection_resources(connection_id);
        let binding = ScimConnectionBinding {
            connection_id: owned(connection_id),
            provisioning_domain_id: owned(provisioning_domain_id),
            decommissioned_at: Some(now),
        };
        upsert(&mut self.bindings, owned(connection_id), binding);
        connection.status = owned("decommissioned");
        connection.revision = connection.revision + 1;
        connection.decommissioned_at = Some(now);
        connection.decommissioned_by = Some(owned(actor_id));
        let event = connection_event_of(second_event_id, &connection, "connection.decommissioned", actor_id, now);
        let ghost ev2 = event@;
        assert(self@.events == after_first);
        self.managed_events.push(event);
        assert(self@.events =~= after_first + seq![ev2]);
        let copy = connection.exact_clone();
        upsert(&mut self.managed_connections, owned(connection_id), connection);
        Ok(copy)
    }
}

} // verus!
