use lucid_auth::scim::acquire::{
    acquire_step, AcquireAction, AcquireEvent, AcquirePhase, AcquireState, AcquiredSource, BindingRecord,
    SourceRecord, SubjectRecord,
};
use lucid_auth::scim::identity::ScimUserExternalIdReference;
use lucid_auth::service::anonymous::{
    anonymous_email_address, anonymous_step, AnonymousAction, AnonymousEvent, AnonymousFailure, AnonymousPhase,
};
use lucid_auth::service::api_key_issue::new_key_for;

fn start() -> AcquireState {
    AcquireState::new(
        ScimUserExternalIdReference { connection_id: "c1".into(), external_id: "ext-9".into() },
        "c1:ext-9".into(),
    )
}

fn source() -> SourceRecord {
    SourceRecord {
        id: "su1".into(),
        provisioning_domain_id: "pd1".into(),
        user_id: "u1".into(),
        connection_user_key: "c1:alice".into(),
    }
}

fn binding(id: &str, domain: &str) -> BindingRecord {
    BindingRecord { id: id.into(), provisioning_domain_id: domain.into() }
}

/// Runs the machine to the binding fence along the path where every check passes.
fn to_binding_fence() -> AcquireState {
    let (s, a) = acquire_step(start(), AcquireEvent::Begin);
    assert!(matches!(a, AcquireAction::FindActiveSource { connection_id, external_id_key, external_id }
        if connection_id == "c1" && external_id_key == "c1:ext-9" && external_id == "ext-9"));
    let (s, a) = acquire_step(s, AcquireEvent::SourceFound(Some(source())));
    assert!(matches!(a, AcquireAction::FindActiveBinding { connection_id } if connection_id == "c1"));
    let (s, a) = acquire_step(s, AcquireEvent::BindingFound(Some(binding("b1", "pd1"))));
    assert!(matches!(a, AcquireAction::FindTombstone { external_id, .. } if external_id == "ext-9"));
    let (s, a) = acquire_step(s, AcquireEvent::TombstoneFound(false));
    assert!(matches!(a, AcquireAction::FindSubject { user_id } if user_id == "u1"));
    let (s, a) = acquire_step(s, AcquireEvent::SubjectFound(Some(SubjectRecord { id: "sub1".into(), revision: 4 })));
    assert!(matches!(a, AcquireAction::FindUser { user_id } if user_id == "u1"));
    let (s, a) = acquire_step(s, AcquireEvent::UserFound(true));
    assert!(matches!(a, AcquireAction::FenceSubject { subject_id, user_id, revision: 4 }
        if subject_id == "sub1" && user_id == "u1"));
    let (s, a) = acquire_step(s, AcquireEvent::SubjectFenced(Some("u1".into())));
    assert!(matches!(a, AcquireAction::FindAcquiredSource { id, provisioning_domain_id, connection_user_key, .. }
        if id == "su1" && provisioning_domain_id == "pd1" && connection_user_key == "c1:alice"));
    let acquired = AcquiredSource { user_id: "u1".into(), provisioning_domain_id: "pd1".into() };
    let (s, a) = acquire_step(s, AcquireEvent::AcquiredSourceFound(Some(acquired)));
    assert!(matches!(a, AcquireAction::FindUser { .. }));
    let (s, a) = acquire_step(s, AcquireEvent::UserFound(true));
    assert!(matches!(a, AcquireAction::FindTombstone { .. }));
    let (s, a) = acquire_step(s, AcquireEvent::TombstoneFound(false));
    assert!(matches!(a, AcquireAction::FenceBinding { connection_id } if connection_id == "c1"));
    assert_eq!(s.phase, AcquirePhase::BindingFence);
    s
}

#[test]
fn acquisition_links_the_exact_active_source() {
    let (s, a) = acquire_step(to_binding_fence(), AcquireEvent::BindingFenced(Some(binding("b1", "pd1"))));
    assert_eq!(s.phase, AcquirePhase::Done);
    match a {
        AcquireAction::Finish(Some(link)) => {
            assert_eq!(link.scim_user_id, "su1");
            assert_eq!(link.user_id, "u1");
        },
        other => panic!("unexpected {other:?}"),
    }
}

#[test]
fn acquisition_finds_nothing_without_a_source_binding_or_live_subject() {
    let (s, _) = acquire_step(start(), AcquireEvent::Begin);
    assert!(matches!(acquire_step(s, AcquireEvent::SourceFound(None)).1, AcquireAction::Finish(None)));

    let (s, _) = acquire_step(start(), AcquireEvent::Begin);
    let (s, _) = acquire_step(s, AcquireEvent::SourceFound(Some(source())));
    assert!(matches!(acquire_step(s, AcquireEvent::BindingFound(None)).1, AcquireAction::Finish(None)));

    let (s, _) = acquire_step(start(), AcquireEvent::Begin);
    let (s, _) = acquire_step(s, AcquireEvent::SourceFound(Some(source())));
    let other_domain = acquire_step(s, AcquireEvent::BindingFound(Some(binding("b1", "pd2"))));
    assert!(matches!(other_domain.1, AcquireAction::Finish(None)));

    let (s, _) = acquire_step(start(), AcquireEvent::Begin);
    let (s, _) = acquire_step(s, AcquireEvent::SourceFound(Some(source())));
    let (s, _) = acquire_step(s, AcquireEvent::BindingFound(Some(binding("b1", "pd1"))));
    assert!(matches!(acquire_step(s, AcquireEvent::TombstoneFound(true)).1, AcquireAction::Finish(None)));

    let (s, _) = acquire_step(start(), AcquireEvent::Begin);
    let (s, _) = acquire_step(s, AcquireEvent::SourceFound(Some(source())));
    let (s, _) = acquire_step(s, AcquireEvent::BindingFound(Some(binding("b1", "pd1"))));
    let (s, _) = acquire_step(s, AcquireEvent::TombstoneFound(false));
    let (s, _) = acquire_step(s, AcquireEvent::SubjectFound(Some(SubjectRecord { id: "sub1".into(), revision: 1 })));
    assert!(matches!(acquire_step(s, AcquireEvent::UserFound(false)).1, AcquireAction::Finish(None)));
}

#[test]
fn acquisition_conflicts_when_the_identity_changes_under_it() {
    let moved = acquire_step(to_binding_fence(), AcquireEvent::BindingFenced(Some(binding("b2", "pd1"))));
    assert!(matches!(moved.1, AcquireAction::Conflict));
    let gone = acquire_step(to_binding_fence(), AcquireEvent::BindingFenced(None));
    assert!(matches!(gone.1, AcquireAction::Conflict));
    assert_eq!(gone.0.phase, AcquirePhase::Done);
}

#[test]
fn acquisition_refuses_answers_out_of_order() {
    let (s, a) = acquire_step(start(), AcquireEvent::UserFound(true));
    assert!(matches!(a, AcquireAction::Unexpected));
    assert_eq!(s.phase, AcquirePhase::Done);
}

#[test]
fn anonymous_sign_in_deletes_the_user_when_a_later_write_fails() {
    assert_eq!(
        anonymous_step(AnonymousPhase::Start, AnonymousEvent::Begin),
        (AnonymousPhase::CreatingUser, AnonymousAction::CreateUser)
    );
    assert_eq!(
        anonymous_step(AnonymousPhase::CreatingUser, AnonymousEvent::UserCreated(false)),
        (AnonymousPhase::Done, AnonymousAction::Fail(AnonymousFailure::AnonymousUserCreationFailed))
    );
    let (p, a) = anonymous_step(AnonymousPhase::CreatingSession, AnonymousEvent::SessionCreated(false));
    assert_eq!(a, AnonymousAction::DeleteUser);
    assert_eq!(
        anonymous_step(p, AnonymousEvent::UserDeleted),
        (AnonymousPhase::Done, AnonymousAction::Fail(AnonymousFailure::AnonymousSessionCreationFailed))
    );
    let (p, a) = anonymous_step(AnonymousPhase::RecordingUpgrade, AnonymousEvent::UpgradeRecorded(false));
    assert_eq!(a, AnonymousAction::DeleteUser);
    assert_eq!(
        anonymous_step(p, AnonymousEvent::UserDeleted),
        (AnonymousPhase::Done, AnonymousAction::Fail(AnonymousFailure::AnonymousUserCreationFailed))
    );
    assert_eq!(
        anonymous_step(AnonymousPhase::RecordingUpgrade, AnonymousEvent::UpgradeRecorded(true)),
        (AnonymousPhase::Done, AnonymousAction::Succeed)
    );
}

#[test]
fn anonymous_addresses_use_the_configured_domain() {
    assert_eq!(anonymous_email_address(Some("example.com"), "abc"), "temp-abc@example.com");
    assert_eq!(anonymous_email_address(None, "abc"), "temp@abc.com");
}

#[test]
fn new_keys_take_the_requested_then_the_default_prefix() {
    let key = new_key_for(Some("req_"), Some("def_"), 12);
    assert_eq!(key.len(), 16);
    assert!(key.starts_with("req_"));
    assert!(key[4..].bytes().all(|b| b.is_ascii_alphabetic()));
    assert!(new_key_for(None, Some("def_"), 12).starts_with("def_"));
    let bare = new_key_for(None, None, 20);
    assert_eq!(bare.len(), 20);
    assert!(bare.bytes().all(|b| b.is_ascii_alphabetic()));
}
