use lucid_auth::scim::error::{store_error, ScimErrorType, ScimStoreError};
use lucid_auth::scim::model::{ScimEmail, ScimGroup, ScimGroupMember, ScimListResponse, ScimName, ScimPhoneNumber, ScimUser};
use lucid_auth::scim::patch::{default_patch_operation, ScimPatchRequest};
use lucid_auth::scim::projection::{normalize_roles, sort_projected_grants, ScimAuthorizationSource, ScimProjectedRoleGrant};
use lucid_auth::scim::{SCIM_GROUP_SCHEMA, SCIM_LIST_RESPONSE_SCHEMA, SCIM_PATCH_SCHEMA, SCIM_USER_SCHEMA};

fn user(user_name: &str) -> ScimUser {
    ScimUser {
        schemas: vec![SCIM_USER_SCHEMA.to_string()],
        id: Some("client-id".to_string()),
        external_id: Some("  ext  ".to_string()),
        user_name: format!("  {user_name} "),
        display_name: None,
        name: None,
        emails: Vec::new(),
        title: None,
        user_type: None,
        preferred_language: None,
        locale: None,
        timezone: None,
        phone_numbers: Vec::new(),
        addresses: Vec::new(),
        roles: Vec::new(),
        entitlements: Vec::new(),
        active: true,
        enterprise: None,
        meta: None,
    }
}

fn normalize(u: ScimUser) -> Result<ScimUser, lucid_auth::scim::error::ScimError> {
    u.normalize_attributes()?.complete_normalization(100)
}

#[test]
fn users_are_trimmed_and_given_a_primary_email() {
    let u = normalize(user("alice@example.com")).unwrap();
    assert_eq!(u.user_name, "alice@example.com");
    assert_eq!(u.external_id.as_deref(), Some("ext"));
    assert_eq!(u.emails.len(), 1);
    assert_eq!(u.emails[0].value, "alice@example.com");
    assert_eq!(u.emails[0].primary, Some(true));
    assert_eq!(u.display_name.as_deref(), Some("alice@example.com"));
    assert_eq!(u.name.as_ref().unwrap().formatted.as_deref(), Some("alice@example.com"));
    assert!(u.id.is_none());
    assert_eq!(u.primary_email(), "alice@example.com");
}

#[test]
fn display_names_come_from_the_name_parts() {
    let mut u = user("jdoe");
    u.emails = vec![ScimEmail { value: "j@example.com".to_string(), primary: None, kind: Some("WORK".to_string()) }];
    u.name = Some(ScimName {
        formatted: None,
        given_name: Some(" Jane ".to_string()),
        family_name: Some("Doe".to_string()),
        middle_name: None,
        honorific_prefix: None,
        honorific_suffix: None,
    });
    let u = normalize(u).unwrap();
    assert_eq!(u.display_name.as_deref(), Some("Jane Doe"));
    assert_eq!(u.emails[0].kind.as_deref(), Some("work"));
    assert_eq!(u.emails[0].primary, Some(true));
}

#[test]
fn invalid_users_are_refused_with_the_reason() {
    let e = normalize(user("jdoe")).unwrap_err();
    assert_eq!(e.status, 400);
    assert_eq!(e.scim_type, Some(ScimErrorType::InvalidValue));
    assert_eq!(e.detail, "emails must contain an email when userName is not an email address");
    let mut two = user("a@example.com");
    two.emails = vec![
        ScimEmail { value: "a@example.com".to_string(), primary: Some(true), kind: None },
        ScimEmail { value: "b@example.com".to_string(), primary: Some(true), kind: None },
    ];
    assert_eq!(normalize(two).unwrap_err().detail, "emails cannot contain multiple primary values");
    let mut schemas = user("a@example.com");
    schemas.schemas = vec!["urn:other".to_string()];
    assert_eq!(normalize(schemas).unwrap_err().detail, "Unsupported SCIM User schema urn:other");
    let blank = user(" ");
    assert_eq!(normalize(blank).unwrap_err().detail, "userName must contain between 1 and 512 characters");
    let big = user("a@example.com").normalize_attributes().unwrap().complete_normalization(65_536).unwrap_err();
    assert_eq!(big.detail, "SCIM User attributes exceed the supported serialized size");
}

#[test]
fn phone_numbers_allow_one_primary() {
    let mut u = user("a@example.com");
    u.phone_numbers = vec![
        ScimPhoneNumber { value: "1".to_string(), kind: None, primary: Some(true) },
        ScimPhoneNumber { value: "2".to_string(), kind: None, primary: Some(true) },
    ];
    assert_eq!(normalize(u).unwrap_err().detail, "phoneNumbers cannot contain multiple primary values");
}

fn member(value: &str, kind: Option<&str>) -> ScimGroupMember {
    ScimGroupMember {
        value: value.to_string(),
        reference: Some("ref".to_string()),
        display: Some("shown".to_string()),
        kind: kind.map(str::to_string),
    }
}

#[test]
fn groups_keep_distinct_user_members() {
    let g = ScimGroup {
        schemas: vec![SCIM_GROUP_SCHEMA.to_string()],
        id: Some("x".to_string()),
        external_id: None,
        display_name: " Admins ".to_string(),
        members: vec![member("u1", Some("user")), member("u1", None), member(" u2 ", None)],
        meta: None,
    };
    let g = g.normalize().unwrap();
    assert_eq!(g.display_name, "Admins");
    assert_eq!(g.members.len(), 2);
    assert_eq!(g.members[1].value, "u2");
    assert_eq!(g.members[0].kind.as_deref(), Some("User"));
    assert!(g.members[0].reference.is_none());
    assert!(g.id.is_none());
    let bad = ScimGroup {
        schemas: vec![SCIM_GROUP_SCHEMA.to_string()],
        id: None,
        external_id: None,
        display_name: "x".to_string(),
        members: vec![member("g", Some("Group"))],
        meta: None,
    };
    assert_eq!(bad.normalize().unwrap_err().detail, "Group members must reference User resources");
}

#[test]
fn storage_errors_become_scim_errors() {
    let e = store_error(ScimStoreError::DuplicateUserName);
    assert_eq!(e.status, 409);
    assert_eq!(e.scim_type, Some(ScimErrorType::Uniqueness));
    assert_eq!(e.detail, "userName must be unique within a connection");
    assert_eq!(store_error(ScimStoreError::NotFound).status, 404);
    assert_eq!(store_error(ScimStoreError::Decommissioned).status, 401);
    assert_eq!(store_error(ScimStoreError::InvalidMember).status, 400);
    let retry = store_error(ScimStoreError::ConcurrentMutation);
    assert!(retry.retryable);
    assert_eq!(retry.detail, "the SCIM resource changed concurrently; retry the request");
    let storage = store_error(ScimStoreError::Storage("disk".to_string()));
    assert_eq!((storage.status, storage.detail.as_str()), (500, "disk"));
    assert_eq!(ScimStoreError::Storage("disk".to_string()).message(), "SCIM storage failed: disk");
}

#[test]
fn list_responses_count_their_page() {
    let r = ScimListResponse::new(10, 3, vec![1, 2]);
    assert_eq!(r.schemas, vec![SCIM_LIST_RESPONSE_SCHEMA.to_string()]);
    assert_eq!((r.total_results, r.start_index, r.items_per_page), (10, 3, 2));
}

#[test]
fn patch_requests_name_only_the_patch_schema() {
    assert_eq!(default_patch_operation(), "replace");
    let ok = ScimPatchRequest { schemas: vec![SCIM_PATCH_SCHEMA.to_string()], operations: Vec::new() };
    assert!(ok.validate().is_ok());
    let bad = ScimPatchRequest { schemas: Vec::new(), operations: Vec::new() };
    assert_eq!(bad.validate().unwrap_err().status, 400);
}

#[test]
fn mapped_roles_are_trimmed_and_distinct() {
    let roles: Vec<String> = [" admin ", "", "admin", "viewer", "  "].iter().map(|s| s.to_string()).collect();
    assert_eq!(normalize_roles(&roles), vec!["admin", "viewer"]);
}

fn grant(group: &str, role: &str) -> ScimProjectedRoleGrant {
    ScimProjectedRoleGrant {
        source: ScimAuthorizationSource::Group { id: group.to_string(), external_id: None, display_name: group.to_string() },
        role: role.to_string(),
    }
}

#[test]
fn grants_are_ordered_by_group_then_role() {
    let sorted = sort_projected_grants(&vec![grant("g2", "a"), grant("g1", "b"), grant("g1", "a")]);
    let keys: Vec<(String, String)> = sorted
        .iter()
        .map(|g| match &g.source {
            ScimAuthorizationSource::Group { id, .. } => (id.clone(), g.role.clone()),
        })
        .collect();
    assert_eq!(
        keys,
        vec![
            ("g1".to_string(), "a".to_string()),
            ("g1".to_string(), "b".to_string()),
            ("g2".to_string(), "a".to_string())
        ]
    );
}

#[test]
fn normalized_emails_hold_exactly_one_primary() {
    let mut emails = vec![
        ScimEmail { value: " a@example.com ".to_string(), primary: None, kind: Some("Work".to_string()) },
        ScimEmail { value: "b@example.com".to_string(), primary: Some(false), kind: Some("home".to_string()) },
    ];
    lucid_auth::scim::normalize::normalize_emails("jane", &mut emails).unwrap();
    assert_eq!(emails.iter().filter(|e| e.primary == Some(true)).count(), 1);
    assert_eq!(emails[0].primary, Some(true));
    assert_eq!(emails[0].value, "a@example.com");
    let mut none = Vec::new();
    lucid_auth::scim::normalize::normalize_emails("jane@example.com", &mut none).unwrap();
    assert_eq!(none.len(), 1);
    assert_eq!(none[0].primary, Some(true));
}
