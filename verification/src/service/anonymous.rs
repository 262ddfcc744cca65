//! Anonymous sign-in: the temporary address of an anonymous user, and the
//! order of the store writes with the rollback of the user when a later
//! write fails.

use crate::text::concat;
use vstd::prelude::*;

verus! {

/// Why an anonymous sign-in failed.
#[derive(Clone, Copy, Debug, PartialEq, Eq, Structural)]
pub enum AnonymousFailure {
    /// The user, or the record that lets it be upgraded later, could not be stored.
    AnonymousUserCreationFailed,
    /// The session could not be created.
    AnonymousSessionCreationFailed,
}

/// The temporary address of an anonymous user with this id: `temp-{id}@{domain}`
/// under a configured domain, else `temp@{id}.com`.
pub open spec fn anonymous_address(domain: Option<Seq<char>>, id: Seq<char>) -> Seq<char> {
    match domain {
        Some(d) => "temp-"@ + id + "@"@ + d,
        None => "temp@"@ + id + ".com"@,
    }
}

/// The temporary address of an anonymous user, where no generator makes one.
pub fn anonymous_email_address(domain: Option<&str>, id: &str) -> (r: String)
    ensures
        r@ == anonymous_address(
            match domain {
                Some(d) => Some(d@),
                None => None,
            },
            id@,
        ),
{
    match domain {
        Some(d) => {
            let a = concat("temp-", id);
            let b = concat(a.as_str(), "@");
            concat(b.as_str(), d)
        },
        None => {
            let a = concat("temp@", id);
            concat(a.as_str(), ".com")
        },
    }
}

/// Where an anonymous sign-in stands.
#[derive(Clone, Copy, Debug, PartialEq, Eq, Structural)]
pub enum AnonymousPhase {
    Start,
    CreatingUser,
    CreatingSession,
    RecordingUpgrade,
    /// The user is being deleted after this failure.
    RollingBack(AnonymousFailure),
    Done,
}

/// What the last store write returned.
#[derive(Clone, Copy, Debug, PartialEq, Eq, Structural)]
pub enum AnonymousEvent {
    Begin,
    UserCreated(bool),
    SessionCreated(bool),
    UpgradeRecorded(bool),
    /// The rollback's deletion ended, whether or not it succeeded.
    UserDeleted,
}

/// The next store write, or the end of the sign-in.
#[derive(Clone, Copy, Debug, PartialEq, Eq, Structural)]
pub enum AnonymousAction {
    CreateUser,
    CreateSession,
    /// Record that the anonymous user may be upgraded until the session expires.
    RecordUpgrade,
    DeleteUser,
    /// The sign-in succeeds with the created session.
    Succeed,
    Fail(AnonymousFailure),
    /// The answer does not fit the phase.
    Unexpected,
}

/// Decides the next step of an anonymous sign-in. A user that could not be
/// stored fails the sign-in at once; a session or an upgrade record that
/// could not be stored deletes the user first, and the sign-in then fails
/// with the session failure or the user failure.
pub fn anonymous_step(phase: AnonymousPhase, e: AnonymousEvent) -> (r: (AnonymousPhase, AnonymousAction))
    ensures
        (phase == AnonymousPhase::Start && e == AnonymousEvent::Begin) ==> r == (
        AnonymousPhase::CreatingUser,
        AnonymousAction::CreateUser,
        ),
        (phase == AnonymousPhase::CreatingUser && e == AnonymousEvent::UserCreated(false)) ==> r == (
        AnonymousPhase::Done,
        AnonymousAction::Fail(AnonymousFailure::AnonymousUserCreationFailed),
        ),
        (phase == AnonymousPhase::CreatingUser && e == AnonymousEvent::UserCreated(true)) ==> r == (
        AnonymousPhase::CreatingSession,
        AnonymousAction::CreateSession,
        ),
        (phase == AnonymousPhase::CreatingSession && e == AnonymousEvent::SessionCreated(false)) ==> r == (
        AnonymousPhase::RollingBack(AnonymousFailure::AnonymousSessionCreationFailed),
        AnonymousAction::DeleteUser,
        ),
        (phase == AnonymousPhase::CreatingSession && e == AnonymousEvent::SessionCreated(true)) ==> r == (
        AnonymousPhase::RecordingUpgrade,
        AnonymousAction::RecordUpgrade,
        ),
        (phase == AnonymousPhase::RecordingUpgrade && e == AnonymousEvent::UpgradeRecorded(false)) ==> r == (
        AnonymousPhase::RollingBack(AnonymousFailure::AnonymousUserCreationFailed),
        AnonymousAction::DeleteUser,
        ),
        (phase == AnonymousPhase::RecordingUpgrade && e == AnonymousEvent::UpgradeRecorded(true)) ==> r == (
        AnonymousPhase::Done,
        AnonymousAction::Succeed,
        ),
        phase matches AnonymousPhase::RollingBack(f) ==> (e == AnonymousEvent::UserDeleted ==> r == (
        AnonymousPhase::Done,
        AnonymousAction::Fail(f),
        )),
        !(phase == AnonymousPhase::Start && e == AnonymousEvent::Begin) && !(phase == AnonymousPhase::CreatingUser
            && e is UserCreated) && !(phase == AnonymousPhase::CreatingSession && e is SessionCreated) && !(phase
            == AnonymousPhase::RecordingUpgrade && e is UpgradeRecorded) && !(phase is RollingBack && e
            == AnonymousEvent::UserDeleted) ==> r == (AnonymousPhase::Done, AnonymousAction::Unexpected),
{
    match (phase, e) {
        (AnonymousPhase::Start, AnonymousEvent::Begin) => (AnonymousPhase::CreatingUser, AnonymousAction::CreateUser),
        (AnonymousPhase::CreatingUser, AnonymousEvent::UserCreated(ok)) => if ok {
            (AnonymousPhase::CreatingSession, AnonymousAction::CreateSession)
        } else {
            (AnonymousPhase::Done, AnonymousAction::Fail(AnonymousFailure::AnonymousUserCreationFailed))
        },
        (AnonymousPhase::CreatingSession, AnonymousEvent::SessionCreated(ok)) => if ok {
            (AnonymousPhase::RecordingUpgrade, AnonymousAction::RecordUpgrade)
        } else {
            (
                AnonymousPhase::RollingBack(AnonymousFailure::AnonymousSessionCreationFailed),
                AnonymousAction::DeleteUser,
            )
        },
        (AnonymousPhase::RecordingUpgrade, AnonymousEvent::UpgradeRecorded(ok)) => if ok {
            (AnonymousPhase::Done, AnonymousAction::Succeed)
        } else {
            (AnonymousPhase::RollingBack(AnonymousFailure::AnonymousUserCreationFailed), AnonymousAction::DeleteUser)
        },
        (AnonymousPhase::RollingBack(f), AnonymousEvent::UserDeleted) => (AnonymousPhase::Done, AnonymousAction::Fail(f)),
        _ => (AnonymousPhase::Done, AnonymousAction::Unexpected),
    }
}

} // verus!
