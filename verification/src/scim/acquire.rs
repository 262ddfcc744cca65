//! Acquiring the application user linked to an active SCIM source inside a
//! transaction, as a machine that decides each next read or write from what
//! the previous one returned.
//!
//! Lookup is limited to the exact connection and external id: no step ever
//! searches by user name or email, or consults anything but the tombstone of
//! that exact reference. A lifecycle mutation that races the acquisition ends
//! it with a conflict, so that the caller retries its whole transaction.

use crate::scim::identity::{ScimActiveUserLink, ScimUserExternalIdReference};
use crate::text::{owned, str_eq};
use vstd::prelude::*;

verus! {

/// The fields of an active SCIM user record that the acquisition reads.
#[derive(Debug)]
pub struct SourceRecord {
    pub id: String,
    pub provisioning_domain_id: String,
    pub user_id: String,
    pub connection_user_key: String,
}

/// The fields of an active connection binding that the acquisition reads.
#[derive(Debug)]
pub struct BindingRecord {
    pub id: String,
    pub provisioning_domain_id: String,
}

/// The fields of a SCIM subject record that the acquisition reads.
#[derive(Debug)]
pub struct SubjectRecord {
    pub id: String,
    pub revision: i64,
}

/// The fields of the SCIM user record found again after the subject fence.
#[derive(Debug)]
pub struct AcquiredSource {
    pub user_id: String,
    pub provisioning_domain_id: String,
}

/// Where the acquisition stands: which answer it waits for.
#[derive(Clone, Copy, Debug, PartialEq, Eq, Structural)]
pub enum AcquirePhase {
    Start,
    Source,
    Binding,
    Tombstone,
    Subject,
    LiveUser,
    Fence,
    AcquiredSource,
    UserRecheck,
    TombstoneRecheck,
    BindingFence,
    Done,
}

/// The acquisition's state: the reference it resolves and what it has read.
#[derive(Debug)]
pub struct AcquireState {
    pub phase: AcquirePhase,
    pub reference: ScimUserExternalIdReference,
    /// The external-id key of the reference within its connection.
    pub external_id_key: String,
    pub source: Option<SourceRecord>,
    pub binding: Option<BindingRecord>,
    pub subject: Option<SubjectRecord>,
    /// The user id of the fenced subject.
    pub fenced_user_id: Option<String>,
    pub acquired: Option<AcquiredSource>,
}

/// What the last read or write returned.
#[derive(Debug)]
pub enum AcquireEvent {
    Begin,
    SourceFound(Option<SourceRecord>),
    BindingFound(Option<BindingRecord>),
    TombstoneFound(bool),
    SubjectFound(Option<SubjectRecord>),
    UserFound(bool),
    /// The fenced subject's user id, or none where the fence matched no record.
    SubjectFenced(Option<String>),
    AcquiredSourceFound(Option<AcquiredSource>),
    BindingFenced(Option<BindingRecord>),
}

/// The next read or write, or the end of the acquisition.
#[derive(Debug)]
pub enum AcquireAction {
    /// Find the active SCIM user of this exact connection and external id.
    FindActiveSource { connection_id: String, external_id_key: String, external_id: String },
    /// Find the connection's active binding.
    FindActiveBinding { connection_id: String },
    /// Find a deleted-identity tombstone of this exact connection and external id.
    FindTombstone { connection_id: String, external_id_key: String, external_id: String },
    /// Find the SCIM subject of the user.
    FindSubject { user_id: String },
    /// Tell whether the application user exists.
    FindUser { user_id: String },
    /// Increment the subject's revision where it still has this revision.
    FenceSubject { subject_id: String, user_id: String, revision: i64 },
    /// Find the SCIM user again, on every field that the acquisition read.
    FindAcquiredSource {
        id: String,
        connection_id: String,
        provisioning_domain_id: String,
        user_id: String,
        connection_user_key: String,
        external_id_key: String,
        external_id: String,
    },
    /// Increment the decommission revision of the connection's active binding.
    FenceBinding { connection_id: String },
    /// The acquisition ends with this link, or with none.
    Finish(Option<ScimActiveUserLink>),
    /// The identity changed concurrently: the caller retries its transaction.
    Conflict,
    /// The answer does not fit the phase.
    Unexpected,
}

/// The status of the conflict that ends an acquisition.
pub const ACQUIRE_CONFLICT_STATUS: u16 = 409;

/// The detail of the conflict that ends an acquisition.
pub const ACQUIRE_CONFLICT_DETAIL: &'static str = "The SCIM identity changed concurrently; retry the request";

/// The position of a phase in the order the acquisition goes through them.
pub open spec fn phase_rank(p: AcquirePhase) -> int {
    match p {
        AcquirePhase::Start => 0,
        AcquirePhase::Source => 1,
        AcquirePhase::Binding => 2,
        AcquirePhase::Tombstone => 3,
        AcquirePhase::Subject => 4,
        AcquirePhase::LiveUser => 5,
        AcquirePhase::Fence => 6,
        AcquirePhase::AcquiredSource => 7,
        AcquirePhase::UserRecheck => 8,
        AcquirePhase::TombstoneRecheck => 9,
        AcquirePhase::BindingFence => 10,
        AcquirePhase::Done => 11,
    }
}

impl AcquireState {
    /// The records that each phase has read, and no others.
    pub open spec fn wf(&self) -> bool {
        let k = phase_rank(self.phase);
        self.phase != AcquirePhase::Done ==> {
            &&& (self.source is Some <==> k >= 2)
            &&& (self.binding is Some <==> k >= 3)
            &&& (self.subject is Some <==> k >= 5)
            &&& (self.fenced_user_id is Some <==> k >= 7)
            &&& (self.acquired is Some <==> k >= 8)
        }
    }

    /// The state before the first read.
    pub fn new(reference: ScimUserExternalIdReference, external_id_key: String) -> (s: Self)
        ensures
            s.wf(),
            s.phase == AcquirePhase::Start,
            s.reference == reference,
            s.external_id_key == external_id_key,
            s.source is None,
    {
        AcquireState {
            phase: AcquirePhase::Start,
            reference,
            external_id_key,
            source: None,
            binding: None,
            subject: None,
            fenced_user_id: None,
            acquired: None,
        }
    }
}

/// Whether `a` asks for the active source of exactly the reference.
pub open spec fn finds_exact_source(a: AcquireAction, s: AcquireState) -> bool {
    a matches AcquireAction::FindActiveSource { connection_id, external_id_key, external_id } && connection_id@
        == s.reference.connection_id@ && external_id_key@ == s.external_id_key@ && external_id@
        == s.reference.external_id@
}

/// Whether `a` asks for the tombstone of exactly the reference.
pub open spec fn finds_exact_tombstone(a: AcquireAction, s: AcquireState) -> bool {
    a matches AcquireAction::FindTombstone { connection_id, external_id_key, external_id } && connection_id@
        == s.reference.connection_id@ && external_id_key@ == s.external_id_key@ && external_id@
        == s.reference.external_id@
}

/// Whether `a` asks for the active binding of the reference's connection.
pub open spec fn finds_binding(a: AcquireAction, s: AcquireState) -> bool {
    a matches AcquireAction::FindActiveBinding { connection_id } && connection_id@ == s.reference.connection_id@
}

/// Whether `a` asks whether the source's user exists.
pub open spec fn finds_user(a: AcquireAction, src: SourceRecord) -> bool {
    a matches AcquireAction::FindUser { user_id } && user_id@ == src.user_id@
}

fn copy(s: &String) -> (r: String)
    ensures
        r@ == s@,
{
    owned(s.as_str())
}

/// Decides the acquisition's next step from what the last read or write
/// returned.
#[verifier::rlimit(40)]
pub fn acquire_step(s: AcquireState, e: AcquireEvent) -> (r: (AcquireState, AcquireAction))
    requires
        s.wf(),
    ensures
        r.0.wf(),
        r.0.reference == s.reference,
        r.0.external_id_key == s.external_id_key,
        // A record once read is kept as read to the end.
        s.source is Some ==> r.0.source == s.source,
        s.binding is Some ==> r.0.binding == s.binding,
        s.subject is Some ==> r.0.subject == s.subject,
        s.fenced_user_id is Some ==> r.0.fenced_user_id == s.fenced_user_id,
        s.acquired is Some ==> r.0.acquired == s.acquired,
        // The first read looks up the exact reference.
        (s.phase == AcquirePhase::Start && e is Begin) ==> (r.0.phase == AcquirePhase::Source && finds_exact_source(
            r.1,
            s,
        )),
        // No active source of the exact reference: no link.
        s.phase == AcquirePhase::Source ==> (e matches AcquireEvent::SourceFound(None) ==> (r.1 matches AcquireAction::Finish(None))),
        s.phase == AcquirePhase::Source ==> (e matches AcquireEvent::SourceFound(Some(src)) ==> {
            &&& r.0.phase == AcquirePhase::Binding
            &&& r.0.source == Some(src)
            &&& finds_binding(r.1, s)
        }),
        // No active binding, or one of another provisioning domain: no link.
        s.phase == AcquirePhase::Binding ==> (e matches AcquireEvent::BindingFound(None) ==> (r.1 matches AcquireAction::Finish(None))),
        s.phase == AcquirePhase::Binding ==> (e matches AcquireEvent::BindingFound(Some(b)) ==> {
            if b.provisioning_domain_id@ != s.source->0.provisioning_domain_id@ {
                r.1 matches AcquireAction::Finish(None)
            } else {
                &&& r.0.phase == AcquirePhase::Tombstone
                &&& r.0.source == s.source
                &&& r.0.binding == Some(b)
                &&& finds_exact_tombstone(r.1, s)
            }
        }),
        // A tombstone of the exact reference: no link.
        s.phase == AcquirePhase::Tombstone ==> (e matches AcquireEvent::TombstoneFound(t) ==> if t {
            r.1 matches AcquireAction::Finish(None)
        } else {
            &&& r.0.phase == AcquirePhase::Subject
            &&& r.1 matches AcquireAction::FindSubject { user_id } && user_id@ == s.source->0.user_id@
        }),
        // No live subject (no subject record, or no such user): no link.
        s.phase == AcquirePhase::Subject ==> (e matches AcquireEvent::SubjectFound(None) ==> (r.1 matches AcquireAction::Finish(None))),
        s.phase == AcquirePhase::Subject ==> (e matches AcquireEvent::SubjectFound(Some(sub)) ==> {
            &&& r.0.phase == AcquirePhase::LiveUser
            &&& r.0.subject == Some(sub)
            &&& finds_user(r.1, s.source->0)
        }),
        s.phase == AcquirePhase::LiveUser ==> (e matches AcquireEvent::UserFound(u) ==> if !u {
            r.1 matches AcquireAction::Finish(None)
        } else {
            &&& r.0.phase == AcquirePhase::Fence
            &&& r.1 matches AcquireAction::FenceSubject { subject_id, user_id, revision } && subject_id@
                == s.subject->0.id@ && user_id@ == s.source->0.user_id@ && revision == s.subject->0.revision
        }),
        // From the fence on, every failed check is a conflict.
        s.phase == AcquirePhase::Fence ==> (e matches AcquireEvent::SubjectFenced(None) ==> (r.1 is Conflict)),
        s.phase == AcquirePhase::Fence ==> (e matches AcquireEvent::SubjectFenced(Some(u)) ==> {
            &&& r.0.phase == AcquirePhase::AcquiredSource
            &&& r.0.fenced_user_id == Some(u)
            &&& r.1 matches AcquireAction::FindAcquiredSource {
                id,
                connection_id,
                provisioning_domain_id,
                user_id,
                connection_user_key,
                external_id_key,
                external_id,
            } && id@ == s.source->0.id@ && connection_id@ == s.reference.connection_id@ && provisioning_domain_id@
                == s.binding->0.provisioning_domain_id@ && user_id@ == s.source->0.user_id@ && connection_user_key@
                == s.source->0.connection_user_key@ && external_id_key@ == s.external_id_key@ && external_id@
                == s.reference.external_id@
        }),
        s.phase == AcquirePhase::AcquiredSource ==> (e matches AcquireEvent::AcquiredSourceFound(None) ==> (r.1 is Conflict)),
        s.phase == AcquirePhase::AcquiredSource ==> (e matches AcquireEvent::AcquiredSourceFound(Some(a)) ==> {
            if a.user_id@ != s.fenced_user_id->0@ {
                r.1 is Conflict
            } else {
                &&& r.0.phase == AcquirePhase::UserRecheck
                &&& r.0.acquired == Some(a)
                &&& finds_user(r.1, s.source->0)
            }
        }),
        s.phase == AcquirePhase::UserRecheck ==> (e matches AcquireEvent::UserFound(u) ==> if !u {
            r.1 is Conflict
        } else {
            r.0.phase == AcquirePhase::TombstoneRecheck && finds_exact_tombstone(r.1, s)
        }),
        s.phase == AcquirePhase::TombstoneRecheck ==> (e matches AcquireEvent::TombstoneFound(t) ==> if t {
            r.1 is Conflict
        } else {
            &&& r.0.phase == AcquirePhase::BindingFence
            &&& r.1 matches AcquireAction::FenceBinding { connection_id } && connection_id@
                == s.reference.connection_id@
        }),
        s.phase == AcquirePhase::BindingFence ==> (e matches AcquireEvent::BindingFenced(None) ==> (r.1 is Conflict)),
        // The fenced binding must be the one read, in the acquired source's
        // domain; then the link is the source's.
        s.phase == AcquirePhase::BindingFence ==> (e matches AcquireEvent::BindingFenced(Some(b)) ==> {
            if b.id@ != s.binding->0.id@ || b.provisioning_domain_id@ != s.acquired->0.provisioning_domain_id@ {
                r.1 is Conflict
            } else {
                r.1 matches AcquireAction::Finish(Some(link)) && link.scim_user_id@ == s.source->0.id@
                    && link.user_id@ == s.source->0.user_id@
            }
        }),
        // Every ending leaves the machine done.
        (r.1 is Finish || r.1 is Conflict || r.1 is Unexpected) ==> r.0.phase == AcquirePhase::Done,
        // An answer that does not fit the phase ends it.
        !(s.phase == AcquirePhase::Start && e is Begin) && !(s.phase == AcquirePhase::Source && e is SourceFound)
            && !(s.phase == AcquirePhase::Binding && e is BindingFound) && !(s.phase == AcquirePhase::Tombstone
            && e is TombstoneFound) && !(s.phase == AcquirePhase::Subject && e is SubjectFound) && !(s.phase
            == AcquirePhase::LiveUser && e is UserFound) && !(s.phase == AcquirePhase::Fence && e is SubjectFenced)
            && !(s.phase == AcquirePhase::AcquiredSource && e is AcquiredSourceFound) && !(s.phase
            == AcquirePhase::UserRecheck && e is UserFound) && !(s.phase == AcquirePhase::TombstoneRecheck
            && e is TombstoneFound) && !(s.phase == AcquirePhase::BindingFence && e is BindingFenced) ==> (r.1 is Unexpected),
{
    let mut st = s;
    let phase = st.phase;
    match e {
        AcquireEvent::Begin => {
            if phase == AcquirePhase::Start {
                let a = AcquireAction::FindActiveSource {
                    connection_id: copy(&st.reference.connection_id),
                    external_id_key: copy(&st.external_id_key),
                    external_id: copy(&st.reference.external_id),
                };
                st.phase = AcquirePhase::Source;
                return (st, a);
            }
        },
        AcquireEvent::SourceFound(found) => {
            if phase == AcquirePhase::Source {
                match found {
                    None => {
                        st.phase = AcquirePhase::Done;
                        return (st, AcquireAction::Finish(None));
                    },
                    Some(src) => {
                        let a = AcquireAction::FindActiveBinding { connection_id: copy(&st.reference.connection_id) };
                        st.source = Some(src);
                        st.phase = AcquirePhase::Binding;
                        return (st, a);
                    },
                }
            }
        },
        AcquireEvent::BindingFound(found) => {
            if phase == AcquirePhase::Binding {
                match found {
                    None => {
                        st.phase = AcquirePhase::Done;
                        return (st, AcquireAction::Finish(None));
                    },
                    Some(b) => {
                        let same_domain = match &st.source {
                            Some(src) => str_eq(b.provisioning_domain_id.as_str(), src.provisioning_domain_id.as_str()),
                            None => false,
                        };
                        if !same_domain {
                            st.phase = AcquirePhase::Done;
                            return (st, AcquireAction::Finish(None));
                        }
                        let a = AcquireAction::FindTombstone {
                            connection_id: copy(&st.reference.connection_id),
                            external_id_key: copy(&st.external_id_key),
                            external_id: copy(&st.reference.external_id),
                        };
                        st.binding = Some(b);
                        st.phase = AcquirePhase::Tombstone;
                        return (st, a);
                    },
                }
            }
        },
        AcquireEvent::TombstoneFound(t) => {
            if phase == AcquirePhase::Tombstone {
                if t {
                    st.phase = AcquirePhase::Done;
                    return (st, AcquireAction::Finish(None));
                }
                let user_id = match &st.source {
                    Some(src) => copy(&src.user_id),
                    None => String::new(),
                };
                st.phase = AcquirePhase::Subject;
                return (st, AcquireAction::FindSubject { user_id });
            }
            if phase == AcquirePhase::TombstoneRecheck {
                if t {
                    st.phase = AcquirePhase::Done;
                    return (st, AcquireAction::Conflict);
                }
                let a = AcquireAction::FenceBinding { connection_id: copy(&st.reference.connection_id) };
                st.phase = AcquirePhase::BindingFence;
                return (st, a);
            }
        },
        AcquireEvent::SubjectFound(found) => {
            if phase == AcquirePhase::Subject {
                match found {
                    None => {
                        st.phase = AcquirePhase::Done;
                        return (st, AcquireAction::Finish(None));
                    },
                    Some(sub) => {
                        let user_id = match &st.source {
                            Some(src) => copy(&src.user_id),
                            None => String::new(),
                        };
                        st.subject = Some(sub);
                        st.phase = AcquirePhase::LiveUser;
                        return (st, AcquireAction::FindUser { user_id });
                    },
                }
            }
        },
        AcquireEvent::UserFound(u) => {
            if phase == AcquirePhase::LiveUser {
                if !u {
                    st.phase = AcquirePhase::Done;
                    return (st, AcquireAction::Finish(None));
                }
                let user_id = match &st.source {
                    Some(src) => copy(&src.user_id),
                    None => String::new(),
                };
                let (subject_id, revision) = match &st.subject {
                    Some(sub) => (copy(&sub.id), sub.revision),
                    None => (String::new(), 0),
                };
                st.phase = AcquirePhase::Fence;
                return (st, AcquireAction::FenceSubject { subject_id, user_id, revision });
            }
            if phase == AcquirePhase::UserRecheck {
                if !u {
                    st.phase = AcquirePhase::Done;
                    return (st, AcquireAction::Conflict);
                }
                let a = AcquireAction::FindTombstone {
                    connection_id: copy(&st.reference.connection_id),
                    external_id_key: copy(&st.external_id_key),
                    external_id: copy(&st.reference.external_id),
                };
                st.phase = AcquirePhase::TombstoneRecheck;
                return (st, a);
            }
        },
        AcquireEvent::SubjectFenced(fenced) => {
            if phase == AcquirePhase::Fence {
                match fenced {
                    None => {
                        st.phase = AcquirePhase::Done;
                        return (st, AcquireAction::Conflict);
                    },
                    Some(u) => {
                        let a = match (&st.source, &st.binding) {
                            (Some(src), Some(b)) => AcquireAction::FindAcquiredSource {
                                id: copy(&src.id),
                                connection_id: copy(&st.reference.connection_id),
                                provisioning_domain_id: copy(&b.provisioning_domain_id),
                                user_id: copy(&src.user_id),
                                connection_user_key: copy(&src.connection_user_key),
                                external_id_key: copy(&st.external_id_key),
                                external_id: copy(&st.reference.external_id),
                            },
                            _ => AcquireAction::Unexpected,
                        };
                        st.fenced_user_id = Some(u);
                        st.phase = AcquirePhase::AcquiredSource;
                        return (st, a);
                    },
                }
            }
        },
        AcquireEvent::AcquiredSourceFound(found) => {
            if phase == AcquirePhase::AcquiredSource {
                match found {
                    None => {
                        st.phase = AcquirePhase::Done;
                        return (st, AcquireAction::Conflict);
                    },
                    Some(a) => {
                        let same_user = match &st.fenced_user_id {
                            Some(u) => str_eq(a.user_id.as_str(), u.as_str()),
                            None => false,
                        };
                        if !same_user {
                            st.phase = AcquirePhase::Done;
                            return (st, AcquireAction::Conflict);
                        }
                        let user_id = match &st.source {
                            Some(src) => copy(&src.user_id),
                            None => String::new(),
                        };
                        st.acquired = Some(a);
                        st.phase = AcquirePhase::UserRecheck;
                        return (st, AcquireAction::FindUser { user_id });
                    },
                }
            }
        },
        AcquireEvent::BindingFenced(fenced) => {
            if phase == AcquirePhase::BindingFence {
                match fenced {
                    None => {
                        st.phase = AcquirePhase::Done;
                        return (st, AcquireAction::Conflict);
                    },
                    Some(b) => {
                        let matches_read = match (&st.binding, &st.acquired) {
                            (Some(read), Some(acq)) => str_eq(b.id.as_str(), read.id.as_str()) && str_eq(
                                b.provisioning_domain_id.as_str(),
                                acq.provisioning_domain_id.as_str(),
                            ),
                            _ => false,
                        };
                        if !matches_read {
                            st.phase = AcquirePhase::Done;
                            return (st, AcquireAction::Conflict);
                        }
                        let link = match &st.source {
                            Some(src) => ScimActiveUserLink { scim_user_id: copy(&src.id), user_id: copy(&src.user_id) },
                            None => ScimActiveUserLink { scim_user_id: String::new(), user_id: String::new() },
                        };
                        st.phase = AcquirePhase::Done;
                        return (st, AcquireAction::Finish(Some(link)));
                    },
                }
            }
        },
    }
    st.phase = AcquirePhase::Done;
    (st, AcquireAction::Unexpected)
}

} // verus!
