use lucid_auth::keyed::Keyed;
use lucid_auth::service::admin_update::{
    admin_update_candidate, admin_update_from_candidate, bans_self, required_update_permissions, AdminUserFields,
    AdminUserUpdate,
};

fn field(key: &str, value: &str) -> Keyed<String> {
    Keyed { key: key.to_string(), value: value.to_string() }
}

fn user() -> AdminUserFields {
    AdminUserFields {
        name: "Ada".to_string(),
        email: "ada@example.com".to_string(),
        email_verified: false,
        image: Some("a.png".to_string()),
        role: "user".to_string(),
        banned: false,
        ban_reason: None,
        ban_expires: None,
        additional_fields: vec![field("locale", "\"en\""), field("plan", "\"free\"")],
    }
}

fn no_change() -> AdminUserUpdate {
    AdminUserUpdate {
        name: None,
        email: None,
        email_verified: None,
        image: None,
        role: None,
        banned: None,
        ban_reason: None,
        ban_expires: None,
        additional_fields: vec![],
    }
}

#[test]
fn updates_replace_only_the_fields_they_carry() {
    let mut update = no_change();
    update.role = Some("admin".to_string());
    update.image = Some(None);
    update.additional_fields = vec![field("plan", "\"pro\""), field("team", "\"core\"")];
    let candidate = admin_update_candidate(&user(), &update);
    assert_eq!(candidate.name, "Ada");
    assert_eq!(candidate.role, "admin");
    assert_eq!(candidate.image, None);
    let fields: Vec<(&str, &str)> =
        candidate.additional_fields.iter().map(|f| (f.key.as_str(), f.value.as_str())).collect();
    assert_eq!(fields, vec![("locale", "\"en\""), ("plan", "\"pro\""), ("team", "\"core\"")]);
}

#[test]
fn writing_a_candidate_in_full_gives_the_candidate() {
    let mut update = no_change();
    update.banned = Some(true);
    update.ban_reason = Some(Some("spam".to_string()));
    let candidate = admin_update_candidate(&user(), &update);
    let full = admin_update_from_candidate(candidate.clone());
    let written = admin_update_candidate(&user(), &full);
    assert!(written.banned);
    assert_eq!(written.ban_reason.as_deref(), Some("spam"));
    assert_eq!(written.email, candidate.email);
    assert_eq!(written.additional_fields.len(), candidate.additional_fields.len());
}

#[test]
fn updates_need_the_permissions_of_what_they_change() {
    assert!(required_update_permissions(&no_change()).is_empty());
    let mut update = no_change();
    update.role = Some("admin".to_string());
    update.email_verified = Some(true);
    update.ban_expires = Some(None);
    assert_eq!(required_update_permissions(&update), vec!["set-role", "set-email", "ban"]);
    let mut ban = no_change();
    ban.banned = Some(true);
    assert!(bans_self(&ban, "u1", "u1"));
    assert!(!bans_self(&ban, "u1", "u2"));
    ban.banned = Some(false);
    assert!(!bans_self(&ban, "u1", "u1"));
}
