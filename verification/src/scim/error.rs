//! SCIM protocol errors and the errors of SCIM storage.

use crate::text::owned;
use vstd::prelude::*;

verus! {

/// The `scimType` of a SCIM error.
#[derive(Clone, Copy, PartialEq, Eq, Debug, Structural)]
pub enum ScimErrorType {
    InvalidValue,
    Uniqueness,
}

/// A SCIM protocol error: an HTTP status, a detail message, an optional
/// `scimType`, and whether the request may be retried as a whole.
#[derive(Clone, Debug)]
pub struct ScimError {
    pub status: u16,
    pub detail: String,
    pub scim_type: Option<ScimErrorType>,
    pub retryable: bool,
}

/// The mathematical value of a SCIM error.
pub struct ScimErrorView {
    pub status: u16,
    pub detail: Seq<char>,
    pub scim_type: Option<ScimErrorType>,
    pub retryable: bool,
}

impl View for ScimError {
    type V = ScimErrorView;

    open spec fn view(&self) -> ScimErrorView {
        ScimErrorView {
            status: self.status,
            detail: self.detail@,
            scim_type: self.scim_type,
            retryable: self.retryable,
        }
    }
}

/// A 400 `invalidValue` error with the given detail.
pub open spec fn invalid_value(detail: Seq<char>) -> ScimErrorView {
    ScimErrorView {
        status: 400,
        detail,
        scim_type: Some(ScimErrorType::InvalidValue),
        retryable: false,
    }
}

/// An error with a status and a detail, without a `scimType`.
pub open spec fn plain_error(status: u16, detail: Seq<char>) -> ScimErrorView {
    ScimErrorView { status, detail, scim_type: None, retryable: false }
}

impl ScimError {
    pub fn new(status: u16, detail: String) -> (e: ScimError)
        ensures
            e@ == plain_error(status, detail@),
    {
        ScimError { status, detail, scim_type: None, retryable: false }
    }

    pub fn typed(status: u16, detail: String, scim_type: ScimErrorType) -> (e: ScimError)
        ensures
            e@ == (ScimErrorView { status, detail: detail@, scim_type: Some(scim_type), retryable: false }),
    {
        ScimError { status, detail, scim_type: Some(scim_type), retryable: false }
    }

    pub fn unauthorized(detail: String) -> (e: ScimError)
        ensures
            e@ == plain_error(401, detail@),
    {
        ScimError { status: 401, detail, scim_type: None, retryable: false }
    }

    /// A 409 conflict that the caller may retry from fresh state.
    pub fn retryable_conflict(detail: String) -> (e: ScimError)
        ensures
            e@ == (ScimErrorView { status: 409, detail: detail@, scim_type: None, retryable: true }),
    {
        ScimError { status: 409, detail, scim_type: None, retryable: true }
    }
}

/// How many times a mutation is attempted at most.
pub const MUTATION_ATTEMPTS: u32 = 3;

/// Whether a mutation whose attempt number `attempt` (counted from 1)
/// failed with `e` is attempted again: only after a retryable error, and
/// only before the last attempt.
pub fn retry_mutation(attempt: u32, e: &ScimError) -> (b: bool)
    ensures
        b == (attempt < MUTATION_ATTEMPTS && e.retryable),
{
    attempt < MUTATION_ATTEMPTS && e.retryable
}

/// A 400 `invalidValue` error.
pub fn invalid(detail: String) -> (e: ScimError)
    ensures
        e@ == invalid_value(detail@),
{
    ScimError::typed(400, detail, ScimErrorType::InvalidValue)
}

/// The errors of SCIM storage.
#[derive(Clone, Debug)]
pub enum ScimStoreError {
    NotFound,
    DuplicateUserName,
    DuplicateExternalId,
    DuplicateDisplayName,
    InvalidMember,
    BindingConflict,
    Decommissioned,
    ProfileConflict,
    ConcurrentMutation,
    CreationRequestConflict,
    CredentialLimit,
    CredentialNotFound,
    Storage(String),
}

/// The message of a storage error.
pub open spec fn store_error_message(e: ScimStoreError) -> Seq<char> {
    match e {
        ScimStoreError::NotFound => "resource not found"@,
        ScimStoreError::DuplicateUserName => "userName must be unique within a connection"@,
        ScimStoreError::DuplicateExternalId => "externalId must be unique within a connection"@,
        ScimStoreError::DuplicateDisplayName => "displayName must be unique within a connection"@,
        ScimStoreError::InvalidMember => "a Group member does not identify an active same-connection SCIM User"@,
        ScimStoreError::BindingConflict => "the connection provisioningDomainId changed after first use"@,
        ScimStoreError::Decommissioned => "the SCIM connection is decommissioned"@,
        ScimStoreError::ProfileConflict => "another SCIM source already manages this User profile"@,
        ScimStoreError::ConcurrentMutation => "the SCIM resource changed concurrently; retry the request"@,
        ScimStoreError::CreationRequestConflict => "the managed creation request id has already been used"@,
        ScimStoreError::CredentialLimit => "the maximum active managed credential count has been reached"@,
        ScimStoreError::CredentialNotFound => "managed credential not found"@,
        ScimStoreError::Storage(detail) => "SCIM storage failed: "@ + detail@,
    }
}

impl ScimStoreError {
    /// The message of this error.
    pub fn message(&self) -> (m: String)
        ensures
            m@ == store_error_message(*self),
    {
        match self {
            ScimStoreError::NotFound => owned("resource not found"),
            ScimStoreError::DuplicateUserName => owned("userName must be unique within a connection"),
            ScimStoreError::DuplicateExternalId => owned("externalId must be unique within a connection"),
            ScimStoreError::DuplicateDisplayName => owned("displayName must be unique within a connection"),
            ScimStoreError::InvalidMember => owned("a Group member does not identify an active same-connection SCIM User"),
            ScimStoreError::BindingConflict => owned("the connection provisioningDomainId changed after first use"),
            ScimStoreError::Decommissioned => owned("the SCIM connection is decommissioned"),
            ScimStoreError::ProfileConflict => owned("another SCIM source already manages this User profile"),
            ScimStoreError::ConcurrentMutation => owned("the SCIM resource changed concurrently; retry the request"),
            ScimStoreError::CreationRequestConflict => owned("the managed creation request id has already been used"),
            ScimStoreError::CredentialLimit => owned("the maximum active managed credential count has been reached"),
            ScimStoreError::CredentialNotFound => owned("managed credential not found"),
            ScimStoreError::Storage(detail) => crate::text::concat("SCIM storage failed: ", detail.as_str()),
        }
    }
}

/// The SCIM error that answers a storage error.
pub open spec fn store_error_spec(e: ScimStoreError) -> ScimErrorView {
    match e {
        ScimStoreError::NotFound | ScimStoreError::CredentialNotFound => plain_error(404, "Resource not found"@),
        ScimStoreError::DuplicateUserName | ScimStoreError::DuplicateExternalId
        | ScimStoreError::DuplicateDisplayName => ScimErrorView {
            status: 409,
            detail: store_error_message(e),
            scim_type: Some(ScimErrorType::Uniqueness),
            retryable: false,
        },
        ScimStoreError::InvalidMember => invalid_value(store_error_message(e)),
        ScimStoreError::BindingConflict => plain_error(
            409,
            "The connection provisioningDomainId changed after the connection was first used"@,
        ),
        ScimStoreError::Decommissioned => plain_error(401, "SCIM connection is decommissioned"@),
        ScimStoreError::CreationRequestConflict => plain_error(409, "SCIM_MANAGED_CREATION_REQUEST_ID_CONFLICT"@),
        ScimStoreError::CredentialLimit => plain_error(409, "Maximum active SCIM credentials reached"@),
        ScimStoreError::ProfileConflict => plain_error(409, store_error_message(e)),
        ScimStoreError::ConcurrentMutation => ScimErrorView {
            status: 409,
            detail: store_error_message(e),
            scim_type: None,
            retryable: true,
        },
        ScimStoreError::Storage(detail) => plain_error(500, detail@),
    }
}

/// The SCIM error that answers a storage error.
pub fn store_error(error: ScimStoreError) -> (e: ScimError)
    ensures
        e@ == store_error_spec(error),
{
    match error {
        ScimStoreError::NotFound | ScimStoreError::CredentialNotFound => {
            ScimError::new(404, owned("Resource not found"))
        },
        ScimStoreError::DuplicateUserName | ScimStoreError::DuplicateExternalId
        | ScimStoreError::DuplicateDisplayName => {
            ScimError::typed(409, error.message(), ScimErrorType::Uniqueness)
        },
        ScimStoreError::InvalidMember => invalid(error.message()),
        ScimStoreError::BindingConflict => ScimError::new(
            409,
            owned("The connection provisioningDomainId changed after the connection was first used"),
        ),
        ScimStoreError::Decommissioned => ScimError::unauthorized(owned("SCIM connection is decommissioned")),
        ScimStoreError::CreationRequestConflict => ScimError::new(
            409,
            owned("SCIM_MANAGED_CREATION_REQUEST_ID_CONFLICT"),
        ),
        ScimStoreError::CredentialLimit => ScimError::new(409, owned("Maximum active SCIM credentials reached")),
        ScimStoreError::ProfileConflict => ScimError::new(409, error.message()),
        ScimStoreError::ConcurrentMutation => ScimError::retryable_conflict(error.message()),
        ScimStoreError::Storage(detail) => ScimError::new(500, detail),
    }
}

} // verus!
