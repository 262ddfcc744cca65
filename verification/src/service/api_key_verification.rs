//! The decisions of API-key verification. Between the lookup of the stored
//! key and the recording of its use, verification either refuses the key,
//! refuses it and deletes the record, or goes on to record the use.

use crate::service::api_key::{ApiKey, ApiKeyError, ApiKeyPermission, ApiKeyUseOutcome};
use crate::service::api_key_policy::{permits_all, permits_all_spec};
use vstd::prelude::*;

verus! {

/// What verification does next.
#[derive(Clone, Copy, PartialEq, Eq, Debug, Structural)]
pub enum VerificationStep {
    /// Refuse with the error.
    Reject(ApiKeyError),
    /// Delete the stored key, then refuse with the error.
    DeleteAndReject(ApiKeyError),
    /// Record one use of the key.
    RecordUse,
    /// Accept the key.
    Accept,
}

/// The checks on a stored key at time `now`, in order: enabled, not
/// expired, holding the required permissions, and not used up.
pub open spec fn stored_key_step(k: &ApiKey, now: i64, required: Option<Seq<ApiKeyPermission>>) -> VerificationStep {
    if !k.enabled {
        VerificationStep::Reject(ApiKeyError::Disabled)
    } else if k.expires_at matches Some(t) && t < now {
        VerificationStep::DeleteAndReject(ApiKeyError::Expired)
    } else if required matches Some(r) && !permits_all_spec(k, r) {
        VerificationStep::Reject(ApiKeyError::PermissionDenied)
    } else if k.remaining == Some(0i64) && k.refill_amount is None {
        VerificationStep::DeleteAndReject(ApiKeyError::UsageExceeded)
    } else {
        VerificationStep::RecordUse
    }
}

/// Checks a stored key at time `now` against the required permissions.
pub fn check_stored_key(k: &ApiKey, now: i64, required: Option<&Vec<ApiKeyPermission>>) -> (r: VerificationStep)
    ensures
        r == stored_key_step(
            k,
            now,
            match required {
                Some(v) => Some(v@),
                None => None,
            },
        ),
{
    if !k.enabled {
        return VerificationStep::Reject(ApiKeyError::Disabled);
    }
    match k.expires_at {
        Some(t) => if t < now {
            return VerificationStep::DeleteAndReject(ApiKeyError::Expired);
        },
        None => {},
    }
    match required {
        Some(r) => if !permits_all(k, r) {
            return VerificationStep::Reject(ApiKeyError::PermissionDenied);
        },
        None => {},
    }
    if k.remaining == Some(0i64) && k.refill_amount.is_none() {
        return VerificationStep::DeleteAndReject(ApiKeyError::UsageExceeded);
    }
    VerificationStep::RecordUse
}

/// What the outcome of recording a use answers: an allowed use accepts the
/// key; a used-up key is deleted unless it refills.
pub open spec fn use_outcome_step(outcome: &ApiKeyUseOutcome, stored: &ApiKey) -> VerificationStep {
    match outcome {
        ApiKeyUseOutcome::Allowed(_) => VerificationStep::Accept,
        ApiKeyUseOutcome::Invalid => VerificationStep::Reject(ApiKeyError::Invalid),
        ApiKeyUseOutcome::UsageExceeded => if stored.refill_amount is None {
            VerificationStep::DeleteAndReject(ApiKeyError::UsageExceeded)
        } else {
            VerificationStep::Reject(ApiKeyError::UsageExceeded)
        },
        ApiKeyUseOutcome::RateLimited { retry_after_milliseconds } => VerificationStep::Reject(
            ApiKeyError::RateLimited { retry_after_milliseconds: *retry_after_milliseconds },
        ),
    }
}

/// Answers the outcome of recording a use of the stored key.
pub fn after_recorded_use(outcome: &ApiKeyUseOutcome, stored: &ApiKey) -> (r: VerificationStep)
    ensures
        r == use_outcome_step(outcome, stored),
{
    match outcome {
        ApiKeyUseOutcome::Allowed(_) => VerificationStep::Accept,
        ApiKeyUseOutcome::Invalid => VerificationStep::Reject(ApiKeyError::Invalid),
        ApiKeyUseOutcome::UsageExceeded => if stored.refill_amount.is_none() {
            VerificationStep::DeleteAndReject(ApiKeyError::UsageExceeded)
        } else {
            VerificationStep::Reject(ApiKeyError::UsageExceeded)
        },
        ApiKeyUseOutcome::RateLimited { retry_after_milliseconds } => VerificationStep::Reject(
            ApiKeyError::RateLimited { retry_after_milliseconds: *retry_after_milliseconds },
        ),
    }
}

/// A key refused as expired stays expired: at every later time, the same
/// stored key is refused as expired and deleted again.
pub proof fn law_expired_key_stays_expired(
    k: &ApiKey,
    now: i64,
    later: i64,
    required: Option<Seq<ApiKeyPermission>>,
)
    requires
        stored_key_step(k, now, required) == VerificationStep::DeleteAndReject(ApiKeyError::Expired),
        now <= later,
    ensures
        stored_key_step(k, later, required) == VerificationStep::DeleteAndReject(ApiKeyError::Expired),
{
}

} // verus!
