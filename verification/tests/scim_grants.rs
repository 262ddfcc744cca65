use lucid_auth::scim::grants::{missing_desired_grants, obsolete_grant_ids, projected, projected_user_state, sort_sources, DesiredGrant, ScimIdentitySource, StoredGrant};
use lucid_auth::scim::projection::ScimAuthorizationSource;

fn desired(key: &str, role: &str) -> DesiredGrant {
    DesiredGrant {
        key: key.to_string(),
        connection_id: "c1".to_string(),
        scim_user_id: "u1".to_string(),
        source: ScimAuthorizationSource::Group {
            id: "g1".to_string(),
            external_id: None,
            display_name: "Admins".to_string(),
        },
        role: role.to_string(),
    }
}

fn stored(id: &str, key: Option<&str>) -> StoredGrant {
    StoredGrant { id: id.to_string(), grant_key: key.map(str::to_string) }
}

#[test]
fn sync_deletes_unwanted_and_creates_missing_grants() {
    let existing = vec![stored("r1", Some("k1")), stored("r2", Some("k2")), stored("r3", None)];
    let wanted = vec![desired("k2", "admin"), desired("k3", "editor")];
    assert_eq!(obsolete_grant_ids(&existing, &wanted), vec!["r1".to_string()]);
    let created = missing_desired_grants(&existing, &wanted);
    assert_eq!(created.len(), 1);
    assert_eq!(created[0].key, "k3");
    assert_eq!(created[0].role, "editor");
}

#[test]
fn a_repeated_stored_key_is_matched_to_its_last_record() {
    let existing = vec![stored("r1", Some("k1")), stored("r2", Some("k1"))];
    assert_eq!(obsolete_grant_ids(&existing, &Vec::new()), vec!["r2".to_string()]);
    assert!(obsolete_grant_ids(&existing, &vec![desired("k1", "admin")]).is_empty());
}

#[test]
fn nothing_changes_when_stored_and_desired_agree() {
    let existing = vec![stored("r1", Some("k1"))];
    let wanted = vec![desired("k1", "admin")];
    assert!(obsolete_grant_ids(&existing, &wanted).is_empty());
    assert!(missing_desired_grants(&existing, &wanted).is_empty());
    let grant = projected(&wanted[0]);
    assert_eq!(grant.role, "admin");
}

fn source(id: &str, active: bool) -> ScimIdentitySource {
    ScimIdentitySource {
        id: id.to_string(),
        connection_id: "c1".to_string(),
        provisioning_domain_id: "domain".to_string(),
        active,
    }
}

#[test]
fn sources_are_ordered_by_id() {
    let sorted = sort_sources(&vec![source("b", true), source("a", false), source("c", false)]);
    let ids: Vec<&str> = sorted.iter().map(|s| s.id.as_str()).collect();
    assert_eq!(ids, vec!["a", "b", "c"]);
}

#[test]
fn projected_state_is_active_with_any_active_source_and_sorts_grants() {
    let wanted = vec![desired("k2", "viewer"), desired("k1", "admin")];
    let state = projected_user_state("domain", "user-1", vec![source("a", false), source("b", true)], &wanted);
    assert!(state.active);
    assert_eq!(state.user_id, "user-1");
    assert_eq!(state.sources.len(), 2);
    let roles: Vec<&str> = state.grants.iter().map(|g| g.role.as_str()).collect();
    assert_eq!(roles, vec!["admin", "viewer"]);
    let idle = projected_user_state("domain", "user-2", vec![source("a", false)], &Vec::new());
    assert!(!idle.active);
    assert!(idle.grants.is_empty());
}
