//! The SCIM plugin's managed-connection operations over the in-memory store:
//! each checks its input, draws fresh identifiers and tokens, and records
//! the outcome in the store.


use crate::exact_clone::ExactClone;
use crate::scim::error::{store_error, store_error_spec, ScimError, ScimErrorView, ScimStoreError, plain_error};
use crate::scim::managed::{observed, observed_credentials, random_urlsafe, free_active_slot, free_slot, policy_refusal, slot_key, slot_key_of, text_refusal, token_digest, token_digest_spec, validate_policy, validate_text, ScimManagedConnection, ScimManagedConnectionEvent, ScimManagedConnectionOptions, ScimManagedConnectionView, ScimManagedCredential, ScimManagedCredentialView, ScimScope};
use crate::scim::memory::{active_count, expire_due, ScimStoreModel, StoreField, event_page, decommissioned_step, decommissioning_step, connection_by_record, credential_of_record, connection_in_domain, credentials_of_record, MemoryScimStore};
use crate::clock::now_millis;
use crate::scim::auth::ScimConnection;
use crate::keyed::as_map;
use crate::text::{concat, owned};
use vstd::prelude::*;

verus! {

/// The SCIM plugin: its configured connections, its managed-connection
/// settings if managed connections are enabled, and its store.
pub struct ScimPlugin {
    pub connections: Vec<ScimConnection>,
    pub managed_connections: Option<ScimManagedConnectionOptions>,
    pub store: MemoryScimStore,
}

/// Whether `e` is an event of connection `c` with `sequence` and `kind`,
/// made by its creator when it was created.
pub open spec fn created_event(
    e: crate::scim::managed::ScimManagedConnectionEventView,
    c: ScimManagedConnectionView,
    sequence: u64,
    kind: Seq<char>,
    credential_id: Option<Seq<char>>,
) -> bool {
    &&& e.connection_record_id == c.id
    &&& e.sequence == sequence
    &&& e.kind == kind
    &&& e.actor_id == c.created_by
    &&& e.credential_id == credential_id
    &&& e.created_at == c.created_at
}

/// Managed connection ids start with this.
pub const CONNECTION_ID_PREFIX: &'static str = "ba_scim_connection_";

/// Managed credential ids start with this.
pub const CREDENTIAL_ID_PREFIX: &'static str = "ba_scim_credential_";

/// The refusal where managed connections are not configured.
pub open spec fn not_configured() -> ScimErrorView {
    plain_error(400, "SCIM managed connections are not configured"@)
}

/// The refusal where the domain has no such managed connection.
pub open spec fn connection_not_found() -> ScimErrorView {
    plain_error(404, "Managed SCIM connection not found"@)
}

/// Whether the plugin refused with the given error.
pub open spec fn refused<A>(r: Result<A, ScimError>, e: ScimErrorView) -> bool {
    r matches Err(x) && x@ == e
}

/// A result of the plugin, by value.
pub open spec fn answered<A: DeepView>(r: Result<A, ScimError>) -> Result<A::V, ScimErrorView> {
    match r {
        Ok(a) => Ok(a.deep_view()),
        Err(e) => Err(e@),
    }
}

/// A managed connection once `actor` has decommissioned it at time `t`.
pub open spec fn decommissioned_by(c: ScimManagedConnectionView, actor: Seq<char>, t: i64) -> ScimManagedConnectionView {
    if c.status == "decommissioned"@ {
        c
    } else {
        decommissioned_step(decommissioning_step(c, actor, t), actor, t)
    }
}

/// Credentials as observed at time `t`.
pub open spec fn observed_all(credentials: Seq<ScimManagedCredentialView>, t: i64) -> Seq<ScimManagedCredentialView> {
    credentials.map_values(|k: ScimManagedCredentialView| observed(k, t))
}

/// A freshly issued credential.
fn issued_credential(
    record_id: &str,
    credential_id: &str,
    token_digest: String,
    active_slot_key: String,
    scopes: Vec<ScimScope>,
    serialized_scopes: String,
    expires_at: i64,
    actor_id: &str,
    now: i64,
) -> (c: ScimManagedCredential)
    ensures
        c@.connection_record_id == record_id@,
        c@.credential_id == credential_id@,
        c@.token_digest == token_digest@,
        c@.hash_version == "v1"@,
        c@.active_slot_key == active_slot_key@,
        c@.status == "active"@,
        c@.scopes == scopes.deep_view(),
        c@.serialized_scopes == serialized_scopes@,
        c@.expires_at == expires_at,
        c@.created_at == now,
        c@.created_by == actor_id@,
        c@.last_used_at is None,
        c@.revoked_at is None,
        c@.revoked_by is None,
        c@.decommissioned_at is None,
        c@.id.len() == 32,
{
    ScimManagedCredential {
        id: random_urlsafe(32),
        connection_record_id: owned(record_id),
        credential_id: owned(credential_id),
        token_digest,
        hash_version: owned("v1"),
        active_slot_key,
        status: owned("active"),
        scopes,
        serialized_scopes,
        expires_at,
        created_at: now,
        created_by: owned(actor_id),
        last_used_at: None,
        revoked_at: None,
        revoked_by: None,
        decommissioned_at: None,
    }
}

/// A fresh event of a connection record.
fn record_event(
    record_id: &str,
    sequence: u64,
    kind: &str,
    actor_id: &str,
    credential_id: Option<String>,
    now: i64,
) -> (e: ScimManagedConnectionEvent)
    ensures
        e@.connection_record_id == record_id@,
        e@.sequence == sequence,
        e@.kind == kind@,
        e@.actor_id == actor_id@,
        e@.credential_id == credential_id.deep_view(),
        e@.created_at == now,
{
    ScimManagedConnectionEvent {
        id: random_urlsafe(32),
        connection_record_id: owned(record_id),
        sequence,
        kind: owned(kind),
        actor_id: owned(actor_id),
        credential_id,
        created_at: now,
    }
}

/// A fresh bearer token for a credential: its id, a dot, and 48 random
/// characters.
fn fresh_token(credential_id: &str) -> (t: String)
    ensures
        t@.len() == credential_id@.len() + 49,
        t@.subrange(0, credential_id@.len() + 1int) == credential_id@ + "."@,
{
    let head = concat(credential_id, ".");
    let tail = random_urlsafe(48);
    let t = concat(head.as_str(), tail.as_str());
    proof {
        reveal_strlit(".");
    }
    assert(t@.subrange(0, credential_id@.len() + 1int) =~= credential_id@ + "."@);
    t
}

/// What a creation does, with the policy checked at `checked_at`, the
/// records made at `now`, and the connection and credential ids ending in
/// the two suffixes. It is refused where managed connections are not
/// configured, where the creation request id or the policy is refused, and
/// where the creation request id was used before, all without a change.
/// Otherwise it records the creation request, an active connection at
/// revision 2, its first credential in slot 0, and the two events
/// `connection.created` and `credential.issued`.
pub open spec fn creation(
    managed: Option<ScimManagedConnectionOptions>,
    before: ScimStoreModel,
    after: ScimStoreModel,
    r: Result<(ScimManagedConnection, ScimManagedCredential, String), ScimError>,
    creation_request_id: Seq<char>,
    provisioning_domain_id: Seq<char>,
    actor_id: Seq<char>,
    scopes: Vec<ScimScope>,
    serialized_scopes: Seq<char>,
    expires_at: i64,
    checked_at: i64,
    now: i64,
    connection_suffix: Seq<char>,
    credential_suffix: Seq<char>,
) -> bool {
    match managed {
        None => refused(r, not_configured()) && after == before,
        Some(o) => match text_refusal(creation_request_id, 16, "creationRequestId"@) {
            Some(e) => refused(r, e) && after == before,
            None => match policy_refusal(provisioning_domain_id, actor_id, scopes@, expires_at, checked_at) {
                Some(e) => refused(r, e) && after == before,
                None => if before.creation_requests.contains(creation_request_id) {
                    refused(r, store_error_spec(ScimStoreError::CreationRequestConflict)) && after == before
                } else {
                    r matches Ok((c, k, token)) && {
                        &&& c@.creation_request_id == creation_request_id
                        &&& c@.connection_id == CONNECTION_ID_PREFIX@ + connection_suffix
                        &&& c@.provisioning_domain_id == provisioning_domain_id
                        &&& c@.status == "active"@
                        &&& c@.revision == 2
                        &&& c@.created_at == now
                        &&& c@.created_by == actor_id
                        &&& c@.decommission_started_at is None
                        &&& c@.decommissioned_at is None
                        &&& k@.connection_record_id == c@.id
                        &&& k@.credential_id == CREDENTIAL_ID_PREFIX@ + credential_suffix
                        &&& k@.status == "active"@
                        &&& k@.hash_version == "v1"@
                        &&& k@.scopes == scopes.deep_view()
                        &&& k@.serialized_scopes == serialized_scopes
                        &&& k@.expires_at == expires_at
                        &&& k@.created_at == now
                        &&& k@.created_by == actor_id
                        &&& k@.last_used_at is None
                        &&& k@.active_slot_key == slot_key(c@.id, 0)
                        &&& k@.token_digest == token_digest_spec(o.credential_hash_secret@, token@)
                        &&& token@.len() == k@.credential_id.len() + 49
                        &&& token@.subrange(0, k@.credential_id.len() + 1int) == k@.credential_id + "."@
                        &&& after.creation_requests == before.creation_requests.push(creation_request_id)
                        &&& as_map(after.connections) == as_map(before.connections).insert(c@.connection_id, c@)
                        &&& as_map(after.credentials) == as_map(before.credentials).insert(k@.credential_id, k@)
                        &&& after.events.len() == before.events.len() + 2
                        &&& after.events.subrange(0, before.events.len() as int) == before.events
                        &&& created_event(after.events[before.events.len() as int], c@, 1, "connection.created"@, None)
                        &&& created_event(
                            after.events[before.events.len() + 1int],
                            c@,
                            2,
                            "credential.issued"@,
                            Some(k@.credential_id),
                        )
                        &&& before.changes_only(
                            after,
                            set![
                                StoreField::CreationRequests,
                                StoreField::Connections,
                                StoreField::Credentials,
                                StoreField::Events,
                            ],
                        )
                    }
                },
            },
        },
    }
}

/// What a rotation does, with the policy checked at `checked_at`, the
/// credential issued at `now` and its id ending in `suffix`. It is refused
/// where managed connections are not configured, where the policy refuses,
/// where the domain has no such connection, and where that connection is not
/// active, all without a change; where the connection's active credentials,
/// once those due at `now` are expired, reach the limit, it is refused with
/// only that expiry kept. Otherwise the credential takes the first free
/// active slot, the connection's revision goes up by one, and a
/// `credential.rotated` event with that revision is recorded.
pub open spec fn rotation(
    managed: Option<ScimManagedConnectionOptions>,
    before: ScimStoreModel,
    after: ScimStoreModel,
    r: Result<(ScimManagedConnection, ScimManagedCredential, String), ScimError>,
    connection_id: Seq<char>,
    provisioning_domain_id: Seq<char>,
    actor_id: Seq<char>,
    scopes: Vec<ScimScope>,
    serialized_scopes: Seq<char>,
    expires_at: i64,
    checked_at: i64,
    now: i64,
    suffix: Seq<char>,
) -> bool {
    match managed {
        None => refused(r, not_configured()) && after == before,
        Some(o) => match policy_refusal(provisioning_domain_id, actor_id, scopes@, expires_at, checked_at) {
            Some(e) => refused(r, e) && after == before,
            None => match connection_in_domain(before.connections, connection_id, provisioning_domain_id) {
                None => refused(r, connection_not_found()) && after == before,
                Some(c) => if c.status != "active"@ {
                    refused(r, store_error_spec(ScimStoreError::Decommissioned)) && after == before
                } else {
                    let expired = expire_due(before.credentials, c.id, now);
                    if active_count(expired, c.id) >= o.max_active_credentials {
                        &&& refused(r, store_error_spec(ScimStoreError::CredentialLimit))
                        &&& after.credentials == expired
                        &&& before.changes_only(after, set![StoreField::Credentials])
                    } else {
                        r matches Ok((cc, k, token)) && {
                            let updated = ScimManagedConnectionView { revision: (c.revision + 1) as u64, ..c };
                            &&& cc@ == updated
                            &&& k@.connection_record_id == c.id
                            &&& k@.credential_id == CREDENTIAL_ID_PREFIX@ + suffix
                            &&& k@.status == "active"@
                            &&& k@.hash_version == "v1"@
                            &&& k@.scopes == scopes.deep_view()
                            &&& k@.serialized_scopes == serialized_scopes
                            &&& k@.expires_at == expires_at
                            &&& k@.created_at == now
                            &&& k@.created_by == actor_id
                            &&& k@.last_used_at is None
                            &&& k@.revoked_at is None
                            &&& k@.decommissioned_at is None
                            &&& k@.token_digest == token_digest_spec(o.credential_hash_secret@, token@)
                            &&& token@.len() == k@.credential_id.len() + 49
                            &&& token@.subrange(0, k@.credential_id.len() + 1int) == k@.credential_id + "."@
                            &&& k@.active_slot_key == slot_key(
                                c.id,
                                free_slot(
                                    credentials_of_record(before.credentials, c.id),
                                    c.id,
                                    now,
                                    0,
                                    o.max_active_credentials as nat,
                                ),
                            )
                            &&& as_map(after.connections) == as_map(before.connections).insert(connection_id, updated)
                            &&& as_map(after.credentials) == as_map(expired).insert(k@.credential_id, k@)
                            &&& after.events.len() == before.events.len() + 1
                            &&& after.events.drop_last() == before.events
                            &&& after.events.last().connection_record_id == c.id
                            &&& after.events.last().sequence == updated.revision
                            &&& after.events.last().kind == "credential.rotated"@
                            &&& after.events.last().actor_id == actor_id
                            &&& after.events.last().credential_id == Some(k@.credential_id)
                            &&& after.events.last().created_at == now
                            &&& active_count(after.credentials, c.id) <= o.max_active_credentials
                            &&& before.changes_only(
                                after,
                                set![StoreField::Connections, StoreField::Credentials, StoreField::Events],
                            )
                        }
                    }
                },
            },
        },
    }
}

impl ScimPlugin {
    /// The managed-connection settings, or a refusal where there are none.
    pub fn managed_options(&self) -> (r: Result<&ScimManagedConnectionOptions, ScimError>)
        ensures
            match self.managed_connections {
                Some(o) => r matches Ok(x) && *x == o,
                None => refused(r, not_configured()),
            },
    {
        match &self.managed_connections {
            Some(o) => Ok(o),
            None => Err(ScimError::new(400, owned("SCIM managed connections are not configured"))),
        }
    }

    /// The domain's managed connection, or a 404 refusal.
    pub fn qualified_connection(&self, connection_id: &str, provisioning_domain_id: &str) -> (r: Result<
        ScimManagedConnection,
        ScimError,
    >)
        requires
            self.store.wf(),
        ensures
            answered(r) == match connection_in_domain(self.store@.connections, connection_id@, provisioning_domain_id@) {
                Some(c) => Ok::<ScimManagedConnectionView, ScimErrorView>(c),
                None => Err(connection_not_found()),
            },
    {
        match self.store.find_managed_connection(connection_id, provisioning_domain_id) {
            Some(c) => Ok(c),
            None => Err(ScimError::new(404, owned("Managed SCIM connection not found"))),
        }
    }

    /// Creates a managed connection for the domain with a first credential
    /// of the given scopes and expiry, with the policy checked at
    /// `checked_at`, the records made at `now`, and the connection and
    /// credential ids made from the two suffixes; returns the connection,
    /// the credential and its bearer token (of which only a digest is kept).
    pub fn create_managed_connection_at(
        &mut self,
        creation_request_id: &str,
        provisioning_domain_id: &str,
        actor_id: &str,
        scopes: Vec<ScimScope>,
        serialized_scopes: String,
        expires_at: i64,
        checked_at: i64,
        now: i64,
        connection_suffix: String,
        credential_suffix: String,
    ) -> (r: Result<(ScimManagedConnection, ScimManagedCredential, String), ScimError>)
        requires
            old(self).store.wf(),
        ensures
            final(self).store.wf(),
            final(self).managed_connections == old(self).managed_connections,
            creation(
                old(self).managed_connections,
                old(self).store@,
                final(self).store@,
                r,
                creation_request_id@,
                provisioning_domain_id@,
                actor_id@,
                scopes,
                serialized_scopes@,
                expires_at,
                checked_at,
                now,
                connection_suffix@,
                credential_suffix@,
            ),
    {
        let secret = match self.managed_options() {
            Ok(o) => o.credential_hash_secret.exact_clone(),
            Err(e) => return Err(e),
        };
        match validate_text(creation_request_id, 16, "creationRequestId") {
            Err(e) => return Err(e),
            Ok(()) => {},
        }
        match validate_policy(provisioning_domain_id, actor_id, &scopes, expires_at, checked_at) {
            Err(e) => return Err(e),
            Ok(()) => {},
        }
        let record_id = random_urlsafe(32);
        let connection_id = concat(CONNECTION_ID_PREFIX, connection_suffix.as_str());
        assert(connection_id@.subrange(0, CONNECTION_ID_PREFIX@.len() as int) =~= CONNECTION_ID_PREFIX@);
        let credential_id = concat(CREDENTIAL_ID_PREFIX, credential_suffix.as_str());
        assert(credential_id@.subrange(0, CREDENTIAL_ID_PREFIX@.len() as int) =~= CREDENTIAL_ID_PREFIX@);
        let token = fresh_token(credential_id.as_str());
        let digest = match token_digest(secret.as_str(), token.as_str()) {
            Ok(d) => d,
            Err(e) => return Err(e),
        };
        let connection = ScimManagedConnection {
            id: record_id.exact_clone(),
            creation_request_id: owned(creation_request_id),
            connection_id,
            provisioning_domain_id: owned(provisioning_domain_id),
            status: owned("active"),
            revision: 2,
            created_at: now,
            created_by: owned(actor_id),
            decommission_started_at: None,
            decommission_started_by: None,
            decommissioned_at: None,
            decommissioned_by: None,
        };
        let slot = slot_key_of(record_id.as_str(), 0);
        let credential = issued_credential(
            record_id.as_str(),
            credential_id.as_str(),
            digest,
            slot,
            scopes,
            serialized_scopes,
            expires_at,
            actor_id,
            now,
        );
        let mut events: Vec<ScimManagedConnectionEvent> = Vec::new();
        events.push(record_event(record_id.as_str(), 1, "connection.created", actor_id, None, now));
        events.push(
            record_event(record_id.as_str(), 2, "credential.issued", actor_id, Some(credential_id.exact_clone()), now),
        );
        let ghost added = events.deep_view();
        match self.store.create_managed_connection(creation_request_id, connection, credential, events) {
            Ok((c, k)) => {
                proof {
                    assert(self.store@.events.subrange(0, old(self).store@.events.len() as int)
                        =~= old(self).store@.events);
                    assert(self.store@.events[old(self).store@.events.len() as int] == added[0]);
                    assert(self.store@.events[old(self).store@.events.len() + 1int] == added[1]);
                }
                Ok((c, k, token))
            },
            Err(e) => Err(store_error(e)),
        }
    }

    /// Creates a managed connection for the domain with a first credential
    /// of the given scopes and expiry, and returns the connection, the
    /// credential and its bearer token (of which only a digest is kept).
    /// The policy is checked, and the records made, at times read from the
    /// clock; the ids and the token are drawn at random.
    pub fn create_managed_connection(
        &mut self,
        creation_request_id: &str,
        provisioning_domain_id: &str,
        actor_id: &str,
        scopes: Vec<ScimScope>,
        serialized_scopes: String,
        expires_at: i64,
    ) -> (r: Result<(ScimManagedConnection, ScimManagedCredential, String), ScimError>)
        requires
            old(self).store.wf(),
        ensures
            final(self).store.wf(),
            final(self).managed_connections == old(self).managed_connections,
            exists|checked_at: i64, now: i64, connection_suffix: Seq<char>, credential_suffix: Seq<char>|
                #[trigger] creation(
                    old(self).managed_connections,
                    old(self).store@,
                    final(self).store@,
                    r,
                    creation_request_id@,
                    provisioning_domain_id@,
                    actor_id@,
                    scopes,
                    serialized_scopes@,
                    expires_at,
                    checked_at,
                    now,
                    connection_suffix,
                    credential_suffix,
                ),
    {
        let checked_at = now_millis();
        let now = now_millis();
        let connection_suffix = random_urlsafe(32);
        let credential_suffix = random_urlsafe(32);
        let ghost cs = connection_suffix@;
        let ghost ks = credential_suffix@;
        let ghost before = self.store@;
        let ghost scopes_in = scopes;
        let ghost serialized_in = serialized_scopes@;
        let r = self.create_managed_connection_at(
            creation_request_id,
            provisioning_domain_id,
            actor_id,
            scopes,
            serialized_scopes,
            expires_at,
            checked_at,
            now,
            connection_suffix,
            credential_suffix,
        );
        assert(creation(
            old(self).managed_connections,
            before,
            self.store@,
            r,
            creation_request_id@,
            provisioning_domain_id@,
            actor_id@,
            scopes_in,
            serialized_in,
            expires_at,
            checked_at,
            now,
            cs,
            ks,
        ));
        r
    }

    /// The managed connections of a provisioning domain.
    pub fn list_managed_connections(&self, provisioning_domain_id: &str) -> (r: Result<
        Vec<ScimManagedConnection>,
        ScimError,
    >)
        requires
            self.store.wf(),
        ensures
            self.managed_connections is None ==> refused(r, not_configured()),
            self.managed_connections is Some ==> match text_refusal(
                provisioning_domain_id@,
                1,
                "provisioningDomainId"@,
            ) {
                Some(refusal) => refused(r, refusal),
                None => r matches Ok(v) && v.deep_view() == crate::scim::memory::connections_of_domain(
                    self.store@.connections,
                    provisioning_domain_id@,
                ),
            },
    {
        match self.managed_options() {
            Err(e) => return Err(e),
            Ok(_) => {},
        }
        match validate_text(provisioning_domain_id, 1, "provisioningDomainId") {
            Err(e) => return Err(e),
            Ok(()) => {},
        }
        Ok(self.store.list_managed_connections(provisioning_domain_id))
    }

    /// The domain's managed connection with its credentials as observed at
    /// `now`.
    pub fn managed_connection_at(&self, connection_id: &str, provisioning_domain_id: &str, now: i64) -> (r: Result<
        (ScimManagedConnection, Vec<ScimManagedCredential>),
        ScimError,
    >)
        requires
            self.store.wf(),
        ensures
            self.managed_connections is None ==> refused(r, not_configured()),
            self.managed_connections is Some ==> match connection_in_domain(
                self.store@.connections,
                connection_id@,
                provisioning_domain_id@,
            ) {
                None => refused(r, connection_not_found()),
                Some(c) => answered(r) == Ok::<_, ScimErrorView>(
                    (
                        c,
                        credentials_of_record(self.store@.credentials, c.id).map_values(
                            |k: ScimManagedCredentialView| observed(k, now),
                        ),
                    ),
                ),
            },
    {
        match self.managed_options() {
            Err(e) => return Err(e),
            Ok(_) => {},
        }
        let connection = match self.qualified_connection(connection_id, provisioning_domain_id) {
            Ok(c) => c,
            Err(e) => return Err(e),
        };
        let credentials = self.store.list_managed_credentials(connection.id.as_str());
        let observed_now = observed_credentials(credentials, now);
        Ok((connection, observed_now))
    }

    /// The domain's managed connection with its credentials as observed at
    /// the current time, which is read from the clock and so left open here.
    pub fn get_managed_connection(&self, connection_id: &str, provisioning_domain_id: &str) -> (r: Result<
        (ScimManagedConnection, Vec<ScimManagedCredential>),
        ScimError,
    >)
        requires
            self.store.wf(),
        ensures
            self.managed_connections is None ==> refused(r, not_configured()),
            self.managed_connections is Some ==> match connection_in_domain(
                self.store@.connections,
                connection_id@,
                provisioning_domain_id@,
            ) {
                None => refused(r, connection_not_found()),
                Some(c) => exists|t: i64|
                    answered(r) == Ok::<_, ScimErrorView>(
                        (c, #[trigger] observed_all(credentials_of_record(self.store@.credentials, c.id), t)),
                    ),
            },
    {
        let now = now_millis();
        let r = self.managed_connection_at(connection_id, provisioning_domain_id, now);
        proof {
            if let Some(c) = connection_in_domain(self.store@.connections, connection_id@, provisioning_domain_id@) {
                let _ = observed_all(credentials_of_record(self.store@.credentials, c.id), now);
            }
        }
        r
    }

    /// Issues a new credential for the domain's managed connection in the
    /// first free active slot, with the policy checked at `checked_at`, the
    /// credential issued at `now`, and its id made from `credential_suffix`;
    /// returns the connection, the credential and its bearer token.
    pub fn rotate_managed_credential_at(
        &mut self,
        connection_id: &str,
        provisioning_domain_id: &str,
        actor_id: &str,
        scopes: Vec<ScimScope>,
        serialized_scopes: String,
        expires_at: i64,
        checked_at: i64,
        now: i64,
        credential_suffix: String,
    ) -> (r: Result<(ScimManagedConnection, ScimManagedCredential, String), ScimError>)
        requires
            old(self).store.wf(),
            connection_in_domain(old(self).store@.connections, connection_id@, provisioning_domain_id@) matches Some(
                c,
            ) ==> c.revision < u64::MAX,
        ensures
            final(self).store.wf(),
            final(self).managed_connections == old(self).managed_connections,
            rotation(
                old(self).managed_connections,
                old(self).store@,
                final(self).store@,
                r,
                connection_id@,
                provisioning_domain_id@,
                actor_id@,
                scopes,
                serialized_scopes@,
                expires_at,
                checked_at,
                now,
                credential_suffix@,
            ),
    {
        let (secret, maximum) = match self.managed_options() {
            Ok(o) => (o.credential_hash_secret.exact_clone(), o.max_active_credentials),
            Err(e) => return Err(e),
        };
        match validate_policy(provisioning_domain_id, actor_id, &scopes, expires_at, checked_at) {
            Err(e) => return Err(e),
            Ok(()) => {},
        }
        let connection = match self.qualified_connection(connection_id, provisioning_domain_id) {
            Ok(c) => c,
            Err(e) => return Err(e),
        };
        let credentials = self.store.list_managed_credentials(connection.id.as_str());
        let slot = free_active_slot(&credentials, connection.id.as_str(), now, maximum);
        let credential_id = concat(CREDENTIAL_ID_PREFIX, credential_suffix.as_str());
        assert(credential_id@.subrange(0, CREDENTIAL_ID_PREFIX@.len() as int) =~= CREDENTIAL_ID_PREFIX@);
        let token = fresh_token(credential_id.as_str());
        let digest = match token_digest(secret.as_str(), token.as_str()) {
            Ok(d) => d,
            Err(e) => return Err(e),
        };
        let slot_name = slot_key_of(connection.id.as_str(), slot);
        let credential = issued_credential(
            connection.id.as_str(),
            credential_id.as_str(),
            digest,
            slot_name,
            scopes,
            serialized_scopes,
            expires_at,
            actor_id,
            now,
        );
        let event = record_event(
            connection.id.as_str(),
            connection.revision + 1,
            "credential.rotated",
            actor_id,
            Some(credential_id.exact_clone()),
            now,
        );
        match self.store.rotate_managed_credential(
            connection_id,
            provisioning_domain_id,
            credential,
            event,
            maximum,
            now,
        ) {
            Ok((c, k)) => {
                let r = Ok((c, k, token));
                proof {
                    assert(self.store@.events.drop_last() =~= old(self).store@.events);
                }
                r
            },
            Err(e) => Err(store_error(e)),
        }
    }

    /// Issues a new credential for the domain's managed connection in the
    /// first free active slot, and returns the connection, the credential
    /// and its bearer token. The policy is checked, and the credential
    /// issued, at times read from the clock; the credential id's suffix is
    /// drawn at random.
    pub fn rotate_managed_credential(
        &mut self,
        connection_id: &str,
        provisioning_domain_id: &str,
        actor_id: &str,
        scopes: Vec<ScimScope>,
        serialized_scopes: String,
        expires_at: i64,
    ) -> (r: Result<(ScimManagedConnection, ScimManagedCredential, String), ScimError>)
        requires
            old(self).store.wf(),
            connection_in_domain(old(self).store@.connections, connection_id@, provisioning_domain_id@) matches Some(
                c,
            ) ==> c.revision < u64::MAX,
        ensures
            final(self).store.wf(),
            final(self).managed_connections == old(self).managed_connections,
            exists|checked_at: i64, now: i64, suffix: Seq<char>|
                #[trigger] rotation(
                    old(self).managed_connections,
                    old(self).store@,
                    final(self).store@,
                    r,
                    connection_id@,
                    provisioning_domain_id@,
                    actor_id@,
                    scopes,
                    serialized_scopes@,
                    expires_at,
                    checked_at,
                    now,
                    suffix,
                ),
    {
        let checked_at = now_millis();
        let now = now_millis();
        let suffix = random_urlsafe(32);
        let ghost sv = suffix@;
        let ghost before = self.store@;
        let ghost scopes_in = scopes;
        let ghost serialized_in = serialized_scopes@;
        let r = self.rotate_managed_credential_at(
            connection_id,
            provisioning_domain_id,
            actor_id,
            scopes,
            serialized_scopes,
            expires_at,
            checked_at,
            now,
            suffix,
        );
        assert(rotation(
            old(self).managed_connections,
            before,
            self.store@,
            r,
            connection_id@,
            provisioning_domain_id@,
            actor_id@,
            scopes_in,
            serialized_in,
            expires_at,
            checked_at,
            now,
            sv,
        ));
        r
    }

    /// Revokes a credential of the domain's managed connection on behalf of
    /// `actor_id`, and returns the connection with its credentials as
    /// observed now.
    pub fn revoke_managed_credential(
        &mut self,
        connection_id: &str,
        provisioning_domain_id: &str,
        credential_id: &str,
        actor_id: &str,
    ) -> (r: Result<(ScimManagedConnection, Vec<ScimManagedCredential>), ScimError>)
        requires
            old(self).store.wf(),
            old(self).store@.events.len() < u64::MAX,
        ensures
            final(self).store.wf(),
            old(self).managed_connections is None ==> refused(r, not_configured()),
            old(self).managed_connections is Some ==> match text_refusal(actor_id@, 1, "actorId"@) {
                Some(refusal) => refused(r, refusal),
                None => match connection_in_domain(
                    old(self).store@.connections,
                    connection_id@,
                    provisioning_domain_id@,
                ) {
                    None => refused(r, connection_not_found()),
                    Some(c) => match connection_by_record(old(self).store@.connections, c.id) {
                        None => true,
                        Some(conn) => if conn.status != "active"@ {
                            refused(r, store_error_spec(ScimStoreError::Decommissioned))
                        } else {
                            match credential_of_record(old(self).store@.credentials, c.id, credential_id@) {
                                None => refused(r, store_error_spec(ScimStoreError::CredentialNotFound)),
                                Some(k) => if k.status != "revoked"@ && k.status != "active"@ {
                                    refused(r, store_error_spec(ScimStoreError::CredentialLimit))
                                } else {
                                    &&& r is Ok
                                    &&& crate::keyed::lookup(final(self).store@.credentials, credential_id@) matches Some(
                                        revoked,
                                    ) && revoked.status == "revoked"@
                                },
                            }
                        },
                    },
                },
            },
            final(self).managed_connections == old(self).managed_connections,
    {
        match self.managed_options() {
            Err(e) => return Err(e),
            Ok(_) => {},
        }
        match validate_text(actor_id, 1, "actorId") {
            Err(e) => return Err(e),
            Ok(()) => {},
        }
        let connection = match self.qualified_connection(connection_id, provisioning_domain_id) {
            Ok(c) => c,
            Err(e) => return Err(e),
        };
        let now = now_millis();
        let event_id = random_urlsafe(32);
        let ghost before = self.store@.credentials;
        let ghost before_connections = self.store@.connections;
        match self.store.revoke_managed_credential(connection.id.as_str(), credential_id, actor_id, now, event_id) {
            Ok(_) => {
                proof {
                    crate::keyed::lemma_lookup_as_map(before, credential_id@);
                    crate::keyed::lemma_lookup_as_map(self.store@.credentials, credential_id@);
                    crate::keyed::lemma_lookup_as_map(before_connections, connection_id@);
                    crate::keyed::lemma_lookup_as_map(self.store@.connections, connection_id@);
                }
            },
            Err(e) => return Err(store_error(e)),
        }
        self.get_managed_connection(connection_id, provisioning_domain_id)
    }

    /// The events of the domain's managed connection, newest first.
    pub fn list_managed_connection_events(&self, connection_id: &str, provisioning_domain_id: &str) -> (r: Result<
        Vec<ScimManagedConnectionEvent>,
        ScimError,
    >)
        requires
            self.store.wf(),
        ensures
            self.managed_connections is None ==> refused(r, not_configured()),
            self.managed_connections is Some ==> match connection_in_domain(
                self.store@.connections,
                connection_id@,
                provisioning_domain_id@,
            ) {
                None => refused(r, connection_not_found()),
                Some(c) => r matches Ok(v) && event_page(self.store@.events, c.id, v.deep_view()),
            },
    {
        match self.managed_options() {
            Err(e) => return Err(e),
            Ok(_) => {},
        }
        let connection = match self.qualified_connection(connection_id, provisioning_domain_id) {
            Ok(c) => c,
            Err(e) => return Err(e),
        };
        Ok(self.store.list_managed_events(connection.id.as_str()))
    }

    /// Decommissions the domain's managed connection on behalf of
    /// `actor_id`, and returns it with its credentials as observed now.
    pub fn decommission_managed_connection(
        &mut self,
        connection_id: &str,
        provisioning_domain_id: &str,
        actor_id: &str,
    ) -> (r: Result<(ScimManagedConnection, Vec<ScimManagedCredential>), ScimError>)
        requires
            old(self).store.wf(),
            connection_in_domain(old(self).store@.connections, connection_id@, provisioning_domain_id@) matches Some(
                c,
            ) ==> (c.status != "decommissioned"@ ==> c.revision < u64::MAX - 1),
        ensures
            final(self).store.wf(),
            old(self).managed_connections is None ==> refused(r, not_configured()),
            old(self).managed_connections is Some ==> match text_refusal(actor_id@, 1, "actorId"@) {
                Some(refusal) => refused(r, refusal),
                None => match connection_in_domain(
                    old(self).store@.connections,
                    connection_id@,
                    provisioning_domain_id@,
                ) {
                    None => refused(r, store_error_spec(crate::scim::error::ScimStoreError::NotFound)),
                    Some(c) => r matches Ok(pair) && pair.0@.status == "decommissioned"@ && exists|t: i64|
                        pair.0@ == #[trigger] decommissioned_by(c, actor_id@, t),
                },
            },
            final(self).managed_connections == old(self).managed_connections,
    {
        match self.managed_options() {
            Err(e) => return Err(e),
            Ok(_) => {},
        }
        match validate_text(actor_id, 1, "actorId") {
            Err(e) => return Err(e),
            Ok(()) => {},
        }
        let now = now_millis();
        let first_event_id = random_urlsafe(32);
        let second_event_id = random_urlsafe(32);
        let ghost before = self.store@.connections;
        match self.store.decommission_managed_connection(
            connection_id,
            provisioning_domain_id,
            actor_id,
            now,
            first_event_id,
            second_event_id,
        ) {
            Ok(_) => {
                proof {
                    crate::keyed::lemma_lookup_as_map(before, connection_id@);
                    crate::keyed::lemma_lookup_as_map(self.store@.connections, connection_id@);
                    if let Some(c) = connection_in_domain(before, connection_id@, provisioning_domain_id@) {
                        let _ = decommissioned_by(c, actor_id@, now);
                    }
                }
            },
            Err(e) => return Err(store_error(e)),
        }
        self.get_managed_connection(connection_id, provisioning_domain_id)
    }

    /// Decommissions a connection of the domain and returns how many of its
    /// users were removed.
    pub fn decommission_connection(&mut self, connection_id: &str, provisioning_domain_id: &str) -> (r: Result<
        usize,
        ScimError,
    >)
        requires
            old(self).store.wf(),
            crate::keyed::lookup(old(self).store@.connections, connection_id@) matches Some(c) ==> c.revision
                < u64::MAX,
        ensures
            final(self).store.wf(),
            match crate::keyed::lookup(old(self).store@.bindings, connection_id@) {
                None => refused(r, store_error_spec(crate::scim::error::ScimStoreError::NotFound)),
                Some(b) => if b.provisioning_domain_id != provisioning_domain_id@ {
                    refused(r, store_error_spec(crate::scim::error::ScimStoreError::NotFound))
                } else {
                    r == Ok::<usize, ScimError>(
                        crate::scim::memory::user_ids_of_connection(
                            old(self).store@.users,
                            connection_id@,
                        ).len() as usize,
                    )
                },
            },
    {
        let now = now_millis();
        match self.store.decommission_connection(connection_id, provisioning_domain_id, now) {
            Ok(n) => Ok(n),
            Err(e) => Err(store_error(e)),
        }
    }
}

} // verus!
