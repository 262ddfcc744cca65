use lucid_auth::scim::error::ScimStoreError;
use lucid_auth::scim::managed::{
    ScimManagedConnection, ScimManagedConnectionEvent, ScimManagedCredential, ScimScope,
};
use lucid_auth::scim::memory::MemoryScimStore;
use lucid_auth::scim::model::{ScimGroup, ScimGroupMember, ScimUser};
use lucid_auth::scim::store::{StoredScimGroup, StoredScimUser};

fn user(id: &str, user_name: &str, external_id: Option<&str>) -> ScimUser {
    ScimUser {
        schemas: vec!["urn:ietf:params:scim:schemas:core:2.0:User".to_string()],
        id: Some(id.to_string()),
        external_id: external_id.map(str::to_string),
        user_name: user_name.to_string(),
        display_name: None,
        name: None,
        emails: Vec::new(),
        title: None,
        user_type: None,
        preferred_language: None,
        locale: None,
        timezone: None,
        phone_numbers: Vec::new(),
        addresses: Vec::new(),
        roles: Vec::new(),
        entitlements: Vec::new(),
        active: true,
        enterprise: None,
        meta: None,
    }
}

fn stored_user(connection: &str, id: &str, user_name: &str, external_id: Option<&str>, created_at: i64) -> StoredScimUser {
    StoredScimUser {
        resource: user(id, user_name, external_id),
        connection_id: connection.to_string(),
        provisioning_domain_id: "domain".to_string(),
        user_id: format!("app-{id}"),
        profile_managed: true,
        created_at,
        updated_at: created_at,
    }
}

fn group(id: &str, name: &str, members: &[&str]) -> ScimGroup {
    ScimGroup {
        schemas: vec!["urn:ietf:params:scim:schemas:core:2.0:Group".to_string()],
        id: Some(id.to_string()),
        external_id: None,
        display_name: name.to_string(),
        members: members
            .iter()
            .map(|m| ScimGroupMember { value: m.to_string(), reference: None, display: None, kind: None })
            .collect(),
        meta: None,
    }
}

fn stored_group(connection: &str, id: &str, name: &str, members: &[&str]) -> StoredScimGroup {
    StoredScimGroup {
        resource: group(id, name, members),
        connection_id: connection.to_string(),
        provisioning_domain_id: "domain".to_string(),
        created_at: 5,
        updated_at: 5,
    }
}

#[test]
fn binding_keeps_its_first_domain() {
    let mut store = MemoryScimStore::new();
    let first = store.bind_connection("c1", "domain").unwrap();
    assert_eq!(first.provisioning_domain_id, "domain");
    assert!(first.decommissioned_at.is_none());
    assert!(matches!(store.bind_connection("c1", "other"), Err(ScimStoreError::BindingConflict)));
    let again = store.bind_connection("c1", "domain").unwrap();
    assert_eq!(again.connection_id, "c1");
}

#[test]
fn user_names_are_unique_per_connection_ignoring_ascii_case() {
    let mut store = MemoryScimStore::new();
    store.create_user(stored_user("c1", "u1", "Alice", Some("e1"), 1)).unwrap();
    assert!(matches!(
        store.create_user(stored_user("c1", "u2", "ALICE", None, 2)),
        Err(ScimStoreError::DuplicateUserName)
    ));
    assert!(matches!(
        store.create_user(stored_user("c1", "u2", "bob", Some("e1"), 2)),
        Err(ScimStoreError::DuplicateExternalId)
    ));
    // Another connection may reuse both.
    store.create_user(stored_user("c2", "u3", "alice", Some("e1"), 3)).unwrap();
    assert_eq!(store.list_users("c1").len(), 1);
    assert_eq!(store.list_users("c2").len(), 1);
}

#[test]
fn users_are_found_only_in_their_connection() {
    let mut store = MemoryScimStore::new();
    store.create_user(stored_user("c1", "u1", "alice", None, 1)).unwrap();
    assert_eq!(store.find_user("c1", "u1").unwrap().resource.user_name, "alice");
    assert!(store.find_user("c2", "u1").is_none());
    assert!(store.find_user("c1", "missing").is_none());
}

#[test]
fn users_list_by_creation_time_then_id() {
    let mut store = MemoryScimStore::new();
    store.create_user(stored_user("c1", "b", "bee", None, 2)).unwrap();
    store.create_user(stored_user("c1", "c", "cee", None, 1)).unwrap();
    store.create_user(stored_user("c1", "a", "aye", None, 2)).unwrap();
    let ids: Vec<String> = store.list_users("c1").into_iter().map(|u| u.resource.id.unwrap()).collect();
    assert_eq!(ids, vec!["c", "a", "b"]);
}

#[test]
fn replacing_keeps_the_stored_fields_and_checks_uniqueness() {
    let mut store = MemoryScimStore::new();
    store.create_user(stored_user("c1", "u1", "alice", None, 1)).unwrap();
    store.create_user(stored_user("c1", "u2", "bob", None, 2)).unwrap();
    let replaced = store.replace_user("c1", "u1", user("u1", "alicia", None), 9).unwrap();
    assert_eq!(replaced.resource.user_name, "alicia");
    assert_eq!(replaced.created_at, 1);
    assert_eq!(replaced.updated_at, 9);
    assert_eq!(replaced.user_id, "app-u1");
    // The user itself is excepted from the check.
    store.replace_user("c1", "u1", user("u1", "ALICIA", None), 10).unwrap();
    assert!(matches!(
        store.replace_user("c1", "u1", user("u1", "Bob", None), 11),
        Err(ScimStoreError::DuplicateUserName)
    ));
    assert!(matches!(
        store.replace_user("c2", "u1", user("u1", "x", None), 11),
        Err(ScimStoreError::NotFound)
    ));
}

#[test]
fn deleting_a_user_strips_memberships_and_leaves_a_tombstone() {
    let mut store = MemoryScimStore::new();
    store.create_user(stored_user("c1", "u1", "alice", Some("ext-1"), 1)).unwrap();
    store.create_user(stored_user("c1", "u2", "bob", None, 2)).unwrap();
    store.create_group(stored_group("c1", "g1", "admins", &["u1", "u2"])).unwrap();
    let deleted = store.delete_user("c1", "u1", 42).unwrap();
    assert_eq!(deleted.resource.user_name, "alice");
    assert!(store.find_user("c1", "u1").is_none());
    let g = store.find_group("c1", "g1").unwrap();
    assert_eq!(g.resource.members.len(), 1);
    assert_eq!(g.resource.members[0].value, "u2");
    assert_eq!(g.updated_at, 42);
    assert_eq!(store.tombstones.len(), 1);
    assert_eq!(store.tombstones[0].key, "c1");
    assert_eq!(store.tombstones[0].value[0].key, "ext-1");
    assert_eq!(store.tombstones[0].value[0].value.user_id, "app-u1");
    assert_eq!(store.tombstones[0].value[0].value.profile_mode, "manage");
    assert!(store.delete_user("c1", "u1", 43).is_none());
}

#[test]
fn group_members_must_be_active_users_of_the_connection() {
    let mut store = MemoryScimStore::new();
    store.create_user(stored_user("c1", "u1", "alice", None, 1)).unwrap();
    store.create_user(stored_user("c2", "u9", "zed", None, 1)).unwrap();
    assert!(matches!(
        store.create_group(stored_group("c1", "g1", "team", &["u1", "u9"])),
        Err(ScimStoreError::InvalidMember)
    ));
    assert!(matches!(
        store.create_group(stored_group("c1", "g1", "team", &["nobody"])),
        Err(ScimStoreError::InvalidMember)
    ));
    store.create_group(stored_group("c1", "g1", "team", &["u1"])).unwrap();
    assert!(matches!(
        store.create_group(stored_group("c1", "g2", "TEAM", &[])),
        Err(ScimStoreError::DuplicateDisplayName)
    ));
    assert!(store.delete_group("c2", "g1").is_none());
    assert_eq!(store.delete_group("c1", "g1").unwrap().resource.display_name, "team");
    assert!(store.find_group("c1", "g1").is_none());
}

#[test]
fn decommissioned_connections_refuse_writes() {
    let mut store = MemoryScimStore::new();
    store.bind_connection("c1", "domain").unwrap();
    store.create_user(stored_user("c1", "u1", "alice", None, 1)).unwrap();
    store.create_user(stored_user("c1", "u2", "bob", None, 2)).unwrap();
    assert!(matches!(store.decommission_connection("c1", "other", 5), Err(ScimStoreError::NotFound)));
    assert_eq!(store.decommission_connection("c1", "domain", 5).unwrap(), 2);
    assert!(store.list_users("c1").is_empty());
    assert!(matches!(
        store.create_user(stored_user("c1", "u3", "carol", None, 6)),
        Err(ScimStoreError::Decommissioned)
    ));
    assert!(matches!(store.bind_connection("c1", "domain"), Err(ScimStoreError::Decommissioned)));
    assert!(matches!(store.decommission_connection("c9", "domain", 5), Err(ScimStoreError::NotFound)));
}

fn connection(record: &str, connection_id: &str) -> ScimManagedConnection {
    ScimManagedConnection {
        id: record.to_string(),
        creation_request_id: "request-0000000001".to_string(),
        connection_id: connection_id.to_string(),
        provisioning_domain_id: "domain".to_string(),
        status: "active".to_string(),
        revision: 2,
        created_at: 0,
        created_by: "admin".to_string(),
        decommission_started_at: None,
        decommission_started_by: None,
        decommissioned_at: None,
        decommissioned_by: None,
    }
}

fn credential(record: &str, id: &str, expires_at: i64) -> ScimManagedCredential {
    ScimManagedCredential {
        id: format!("row-{id}"),
        connection_record_id: record.to_string(),
        credential_id: id.to_string(),
        token_digest: "digest".to_string(),
        hash_version: "v1".to_string(),
        active_slot_key: format!("{record}:active:0"),
        status: "active".to_string(),
        scopes: vec![ScimScope::UsersRead],
        serialized_scopes: "[]".to_string(),
        expires_at,
        created_at: 0,
        created_by: "admin".to_string(),
        last_used_at: None,
        revoked_at: None,
        revoked_by: None,
        decommissioned_at: None,
    }
}

fn event(record: &str, sequence: u64, kind: &str) -> ScimManagedConnectionEvent {
    ScimManagedConnectionEvent {
        id: format!("event-{sequence}"),
        connection_record_id: record.to_string(),
        sequence,
        kind: kind.to_string(),
        actor_id: "admin".to_string(),
        credential_id: None,
        created_at: 0,
    }
}

#[test]
fn creation_request_ids_are_used_once() {
    let mut store = MemoryScimStore::new();
    let (c, k) = store
        .create_managed_connection("req", connection("r1", "c1"), credential("r1", "k1", 100), vec![event("r1", 1, "connection.created")])
        .unwrap();
    assert_eq!(c.connection_id, "c1");
    assert_eq!(k.credential_id, "k1");
    assert!(matches!(
        store.create_managed_connection("req", connection("r2", "c2"), credential("r2", "k2", 100), Vec::new()),
        Err(ScimStoreError::CreationRequestConflict)
    ));
    assert_eq!(store.list_managed_connections("domain").len(), 1);
    assert_eq!(store.list_managed_events("r1").len(), 1);
}

#[test]
fn rotation_expires_old_credentials_and_enforces_the_limit() {
    let mut store = MemoryScimStore::new();
    store
        .create_managed_connection("req", connection("r1", "c1"), credential("r1", "k1", 100), Vec::new())
        .unwrap();
    // k1 is still active at time 50: the limit of one is reached.
    assert!(matches!(
        store.rotate_managed_credential("c1", "domain", credential("r1", "k2", 200), event("r1", 3, "credential.rotated"), 1, 50),
        Err(ScimStoreError::CredentialLimit)
    ));
    // At time 100, k1 has expired and is marked so.
    let (c, k) = store
        .rotate_managed_credential("c1", "domain", credential("r1", "k2", 200), event("r1", 3, "credential.rotated"), 1, 100)
        .unwrap();
    assert_eq!(c.revision, 3);
    assert_eq!(k.credential_id, "k2");
    let credentials = store.list_managed_credentials("r1");
    assert_eq!(credentials.len(), 2);
    assert_eq!(credentials[0].status, "expired");
    assert_eq!(credentials[1].status, "active");
    assert!(matches!(
        store.rotate_managed_credential("c1", "other", credential("r1", "k3", 200), event("r1", 4, "x"), 5, 100),
        Err(ScimStoreError::NotFound)
    ));
}

#[test]
fn revoking_logs_an_event_and_is_idempotent() {
    let mut store = MemoryScimStore::new();
    store
        .create_managed_connection(
            "req",
            connection("r1", "c1"),
            credential("r1", "k1", 100),
            vec![event("r1", 1, "connection.created"), event("r1", 2, "credential.issued")],
        )
        .unwrap();
    let revoked = store.revoke_managed_credential("r1", "k1", "admin", 7, "ev".to_string()).unwrap();
    assert_eq!(revoked.status, "revoked");
    assert_eq!(revoked.revoked_at, Some(7));
    assert_eq!(revoked.revoked_by.as_deref(), Some("admin"));
    let events = store.list_managed_events("r1");
    assert_eq!(events[0].sequence, 3);
    assert_eq!(events[0].kind, "credential.revoked");
    assert_eq!(store.find_managed_connection("c1", "domain").unwrap().revision, 3);
    let again = store.revoke_managed_credential("r1", "k1", "admin", 8, "ev2".to_string()).unwrap();
    assert_eq!(again.revoked_at, Some(7));
    assert_eq!(store.list_managed_events("r1").len(), 3);
    assert!(matches!(
        store.revoke_managed_credential("r1", "k9", "admin", 8, "ev3".to_string()),
        Err(ScimStoreError::CredentialNotFound)
    ));
    assert!(matches!(
        store.revoke_managed_credential("r9", "k1", "admin", 8, "ev3".to_string()),
        Err(ScimStoreError::NotFound)
    ));
}

#[test]
fn last_use_is_written_at_most_once_per_interval() {
    let mut store = MemoryScimStore::new();
    store
        .create_managed_connection("req", connection("r1", "c1"), credential("r1", "k1", 1_000_000), Vec::new())
        .unwrap();
    store.touch_managed_credential("k1", 10_000, 60).unwrap();
    store.touch_managed_credential("k1", 20_000, 60).unwrap();
    let (_, k) = store.find_managed_credential("k1").unwrap();
    assert_eq!(k.last_used_at, Some(10_000));
    store.touch_managed_credential("k1", 70_000, 60).unwrap();
    let (_, k) = store.find_managed_credential("k1").unwrap();
    assert_eq!(k.last_used_at, Some(70_000));
    assert!(matches!(store.touch_managed_credential("nope", 1, 60), Err(ScimStoreError::CredentialNotFound)));
}

#[test]
fn events_list_newest_first_and_at_most_one_hundred() {
    let mut store = MemoryScimStore::new();
    let events: Vec<ScimManagedConnectionEvent> = (1..=120).map(|n| event("r1", n, "x")).collect();
    store.create_managed_connection("req", connection("r1", "c1"), credential("r1", "k1", 100), events).unwrap();
    let listed = store.list_managed_events("r1");
    assert_eq!(listed.len(), 100);
    assert_eq!(listed[0].sequence, 120);
    assert_eq!(listed[99].sequence, 21);
    assert!(store.list_managed_events("r2").is_empty());
}

#[test]
fn managed_decommissioning_removes_resources_and_is_final() {
    let mut store = MemoryScimStore::new();
    store.create_managed_connection("req", connection("r1", "c1"), credential("r1", "k1", 100), Vec::new()).unwrap();
    store.create_user(stored_user("c1", "u1", "alice", None, 1)).unwrap();
    store.create_group(stored_group("c1", "g1", "team", &["u1"])).unwrap();
    let done = store
        .decommission_managed_connection("c1", "domain", "admin", 9, "e1".to_string(), "e2".to_string())
        .unwrap();
    assert_eq!(done.status, "decommissioned");
    assert_eq!(done.revision, 4);
    assert_eq!(done.decommission_started_at, Some(9));
    assert_eq!(done.decommissioned_by.as_deref(), Some("admin"));
    assert!(store.list_users("c1").is_empty());
    assert!(store.list_groups("c1").is_empty());
    assert_eq!(store.list_managed_credentials("r1")[0].status, "decommissioned");
    let events = store.list_managed_events("r1");
    assert_eq!(events.len(), 2);
    assert_eq!(events[0].kind, "connection.decommissioned");
    assert_eq!(events[1].kind, "connection.decommissioning");
    let again = store
        .decommission_managed_connection("c1", "domain", "admin", 10, "e3".to_string(), "e4".to_string())
        .unwrap();
    assert_eq!(again.revision, 4);
    assert!(matches!(
        store.create_user(stored_user("c1", "u2", "bob", None, 11)),
        Err(ScimStoreError::Decommissioned)
    ));
    assert!(matches!(
        store.decommission_managed_connection("c1", "other", "admin", 10, "a".to_string(), "b".to_string()),
        Err(ScimStoreError::NotFound)
    ));
}
