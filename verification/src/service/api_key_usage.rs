//! Accounting of one use of an API key: the usage quota with its refill, and
//! the request-rate window.

use crate::service::api_key::{ApiKey, ApiKeyConfiguration, ApiKeyError};
use vstd::prelude::*;

verus! {

/// The usage fields that one accepted use of an API key writes back.
pub struct ApiKeyUsageMutation {
    pub remaining: Option<i64>,
    pub last_refill_at: Option<i64>,
    pub last_request: Option<i64>,
    pub request_count: i64,
    pub updated_at: i64,
}

/// The quota after one use: `Err(UsageExceeded)` when no use is left, else
/// the remaining count and the time of the last refill. A refill (to the
/// refill amount) happens first when both refill settings are non-zero and
/// more than the refill interval has passed since the last refill, or since
/// creation when there was none.
pub open spec fn consume_remaining_spec(k: &ApiKey, now: i64) -> Result<
    (Option<i64>, Option<i64>),
    ApiKeyError,
> {
    match k.remaining {
        None => Ok((None, k.last_refill_at)),
        Some(current) => {
            let since = match k.last_refill_at {
                Some(t) => t,
                None => k.created_at,
            };
            let refill = k.refill_interval is Some && k.refill_amount is Some
                && k.refill_interval->0 != 0 && k.refill_amount->0 != 0 && now - since
                > k.refill_interval->0;
            let quota = if refill {
                k.refill_amount->0
            } else {
                current
            };
            let last_refill = if refill {
                Some(now)
            } else {
                k.last_refill_at
            };
            if quota == 0 {
                Err(ApiKeyError::UsageExceeded)
            } else {
                Ok((Some((quota - 1) as i64), last_refill))
            }
        },
    }
}

/// The request window after one use: unlimited keys only record the time;
/// keys without a window or a maximum are left as they are; a first request,
/// or one after the window has passed, starts a new window; a full window is
/// refused with the time left in it; otherwise the count grows by one
/// (saturating).
pub open spec fn consume_rate_limit_spec(
    k: &ApiKey,
    rate_limit_enabled: bool,
    now: i64,
) -> Result<(Option<i64>, i64), ApiKeyError> {
    if !rate_limit_enabled || !k.rate_limit_enabled {
        Ok((Some(now), k.request_count))
    } else if k.rate_limit_time_window is None || k.rate_limit_max is None {
        Ok((k.last_request, k.request_count))
    } else {
        let window = k.rate_limit_time_window->0;
        let max = k.rate_limit_max->0;
        match k.last_request {
            None => Ok((Some(now), 1)),
            Some(last) => {
                let elapsed = now - last;
                if elapsed > window {
                    Ok((Some(now), 1))
                } else if k.request_count >= max {
                    Err(
                        ApiKeyError::RateLimited {
                            retry_after_milliseconds: if window - elapsed >= 0 {
                                (window - elapsed) as i64
                            } else {
                                0
                            },
                        },
                    )
                } else {
                    Ok(
                        (
                            Some(now),
                            if k.request_count == i64::MAX {
                                i64::MAX
                            } else {
                                (k.request_count + 1) as i64
                            },
                        ),
                    )
                }
            },
        }
    }
}

/// The arithmetic of one use stays within `i64`: the quota to decrement is
/// above `i64::MIN`, and the time left in a full window fits.
pub open spec fn usage_arithmetic_fits(k: &ApiKey, now: i64) -> bool {
    &&& (k.remaining matches Some(r) ==> r > i64::MIN)
    &&& (k.remaining is Some ==> (k.refill_amount matches Some(a) ==> a > i64::MIN))
    &&& (k.rate_limit_time_window matches Some(w) ==> (k.last_request matches Some(last) ==> w
        - (now - last) <= i64::MAX))
}

fn consume_remaining(k: &ApiKey, now: i64) -> (r: Result<(Option<i64>, Option<i64>), ApiKeyError>)
    requires
        usage_arithmetic_fits(k, now),
    ensures
        r == consume_remaining_spec(k, now),
{
    let current = match k.remaining {
        None => {
            return Ok((None, k.last_refill_at));
        },
        Some(current) => current,
    };
    let mut quota = current;
    let mut last_refill_at = k.last_refill_at;
    match (k.refill_interval, k.refill_amount) {
        (Some(interval), Some(amount)) => {
            let since = match k.last_refill_at {
                Some(t) => t,
                None => k.created_at,
            };
            let elapsed: i128 = now as i128 - since as i128;
            if interval != 0 && amount != 0 && elapsed > interval as i128 {
                quota = amount;
                last_refill_at = Some(now);
            }
        },
        _ => {},
    }
    if quota == 0 {
        return Err(ApiKeyError::UsageExceeded);
    }
    Ok((Some(quota - 1), last_refill_at))
}

fn consume_rate_limit(k: &ApiKey, config: &ApiKeyConfiguration, now: i64) -> (r: Result<
    (Option<i64>, i64),
    ApiKeyError,
>)
    requires
        usage_arithmetic_fits(k, now),
    ensures
        r == consume_rate_limit_spec(k, config.rate_limit_enabled, now),
{
    if !config.rate_limit_enabled || !k.rate_limit_enabled {
        return Ok((Some(now), k.request_count));
    }
    let (window, max) = match (k.rate_limit_time_window, k.rate_limit_max) {
        (Some(window), Some(max)) => (window, max),
        _ => {
            return Ok((k.last_request, k.request_count));
        },
    };
    let last = match k.last_request {
        None => {
            return Ok((Some(now), 1));
        },
        Some(last) => last,
    };
    let elapsed: i128 = now as i128 - last as i128;
    if elapsed > window as i128 {
        return Ok((Some(now), 1));
    }
    if k.request_count >= max {
        let left: i128 = window as i128 - elapsed;
        let retry: i64 = if left >= 0 {
            left as i64
        } else {
            0
        };
        return Err(ApiKeyError::RateLimited { retry_after_milliseconds: retry });
    }
    let count = if k.request_count == i64::MAX {
        i64::MAX
    } else {
        k.request_count + 1
    };
    Ok((Some(now), count))
}

/// The outcome of one use of `k` at `now`: the quota is consumed first, then
/// the request window; the first refusal is the result.
pub open spec fn evaluate_spec(k: &ApiKey, rate_limit_enabled: bool, now: i64) -> Result<
    ApiKeyUsageMutation,
    ApiKeyError,
> {
    match consume_remaining_spec(k, now) {
        Err(e) => Err(e),
        Ok((remaining, last_refill_at)) => match consume_rate_limit_spec(
            k,
            rate_limit_enabled,
            now,
        ) {
            Err(e) => Err(e),
            Ok((last_request, request_count)) => Ok(
                ApiKeyUsageMutation {
                    remaining,
                    last_refill_at,
                    last_request,
                    request_count,
                    updated_at: now,
                },
            ),
        },
    }
}

/// Evaluates one use of `k` at `now` under `config`.
pub fn evaluate(k: &ApiKey, config: &ApiKeyConfiguration, now: i64) -> (r: Result<
    ApiKeyUsageMutation,
    ApiKeyError,
>)
    requires
        usage_arithmetic_fits(k, now),
    ensures
        r == evaluate_spec(k, config.rate_limit_enabled, now),
{
    let (remaining, last_refill_at) = match consume_remaining(k, now) {
        Ok(v) => v,
        Err(e) => {
            return Err(e);
        },
    };
    let (last_request, request_count) = match consume_rate_limit(k, config, now) {
        Ok(v) => v,
        Err(e) => {
            return Err(e);
        },
    };
    Ok(ApiKeyUsageMutation { remaining, last_refill_at, last_request, request_count, updated_at: now })
}

impl ApiKeyUsageMutation {
    /// Writes the usage fields into `api_key`, leaving its other fields as
    /// they were.
    pub fn apply(self, api_key: &mut ApiKey)
        ensures
            final(api_key).remaining == self.remaining,
            final(api_key).last_refill_at == self.last_refill_at,
            final(api_key).last_request == self.last_request,
            final(api_key).request_count == self.request_count,
            final(api_key).updated_at == self.updated_at,
            final(api_key).id == old(api_key).id,
            final(api_key).config_id == old(api_key).config_id,
            final(api_key).name == old(api_key).name,
            final(api_key).key_hash == old(api_key).key_hash,
            final(api_key).reference_id == old(api_key).reference_id,
            final(api_key).refill_interval == old(api_key).refill_interval,
            final(api_key).refill_amount == old(api_key).refill_amount,
            final(api_key).enabled == old(api_key).enabled,
            final(api_key).rate_limit_enabled == old(api_key).rate_limit_enabled,
            final(api_key).rate_limit_time_window == old(api_key).rate_limit_time_window,
            final(api_key).rate_limit_max == old(api_key).rate_limit_max,
            final(api_key).expires_at == old(api_key).expires_at,
            final(api_key).created_at == old(api_key).created_at,
    {
        api_key.remaining = self.remaining;
        api_key.last_refill_at = self.last_refill_at;
        api_key.last_request = self.last_request;
        api_key.request_count = self.request_count;
        api_key.updated_at = self.updated_at;
    }
}

/// A quota never goes below zero: when the stored count and the refill
/// amount are not negative, an accepted use leaves a count that is not
/// negative and one less than the quota it spent from.
pub proof fn law_quota_stays_non_negative(k: &ApiKey, rate_limit_enabled: bool, now: i64)
    requires
        k.remaining matches Some(r) && r >= 0,
        k.refill_amount matches Some(a) ==> a >= 0,
        evaluate_spec(k, rate_limit_enabled, now) is Ok,
    ensures
        ({
            let m = evaluate_spec(k, rate_limit_enabled, now)->Ok_0;
            &&& m.remaining matches Some(left) && left >= 0
            &&& (m.remaining->0 == k.remaining->0 - 1 || (k.refill_amount matches Some(a)
                && m.remaining->0 == a - 1 && m.last_refill_at == Some(now)))
        }),
{
}

/// A refused window leaves nothing to write: when the window is full, the use
/// is refused with a wait no longer than the window.
pub proof fn law_full_window_refuses(k: &ApiKey, now: i64)
    requires
        consume_remaining_spec(k, now) is Ok,
        k.rate_limit_enabled,
        k.rate_limit_time_window matches Some(w) && w >= 0,
        k.rate_limit_max matches Some(m) && k.request_count >= m,
        k.last_request matches Some(last) && 0 <= now - last <= k.rate_limit_time_window->0,
    ensures
        evaluate_spec(k, true, now) matches Err(ApiKeyError::RateLimited {
            retry_after_milliseconds,
        }) && 0 <= retry_after_milliseconds <= k.rate_limit_time_window->0,
{
}

/// A use accepted inside an open rate window counts one request more and
/// moves the window's last request to `now`.
pub proof fn law_use_counts_in_open_window(k: &ApiKey, now: i64)
    requires
        consume_remaining_spec(k, now) is Ok,
        k.rate_limit_enabled,
        k.rate_limit_time_window matches Some(w) && (k.last_request matches Some(l) && now - l <= w),
        k.rate_limit_max matches Some(m) && k.request_count < m,
    ensures
        evaluate_spec(k, true, now) matches Ok(u) && u.request_count == k.request_count + 1 && u.last_request
            == Some(now),
{
}

/// The key once the usage fields of `u` are written into it.
pub open spec fn used(k: ApiKey, u: ApiKeyUsageMutation) -> ApiKey {
    ApiKey {
        remaining: u.remaining,
        last_refill_at: u.last_refill_at,
        last_request: u.last_request,
        request_count: u.request_count,
        updated_at: u.updated_at,
        ..k
    }
}

/// The key after one accepted use at each of the `times` in turn, or the
/// first refusal.
pub open spec fn uses(k: ApiKey, times: Seq<i64>) -> Result<ApiKey, ApiKeyError>
    decreases times.len(),
{
    if times.len() == 0 {
        Ok(k)
    } else {
        match uses(k, times.drop_last()) {
            Err(e) => Err(e),
            Ok(k2) => match evaluate_spec(&k2, true, times.last()) {
                Err(e) => Err(e),
                Ok(u) => Ok(used(k2, u)),
            },
        }
    }
}

/// Whether each of the `times` follows the one before within `window`.
pub open spec fn within_steps(times: Seq<i64>, window: i64) -> bool {
    forall|i: int| 0 < i < times.len() ==> 0 <= #[trigger] times[i] - times[i - 1] <= window
}

proof fn lemma_uses_count(k: ApiKey, times: Seq<i64>)
    requires
        k.remaining is None,
        k.rate_limit_enabled,
        k.rate_limit_time_window matches Some(w) && within_steps(times, w),
        k.rate_limit_max matches Some(m) && times.len() <= m,
        k.last_request is None,
        1 <= times.len(),
    ensures
        uses(k, times) matches Ok(k2) && k2.request_count == times.len() && k2.last_request == Some(times.last())
            && k2.remaining is None && k2.rate_limit_enabled == k.rate_limit_enabled && k2.rate_limit_time_window
            == k.rate_limit_time_window && k2.rate_limit_max == k.rate_limit_max,
    decreases times.len(),
{
    if times.len() == 1 {
        assert(times.drop_last() =~= Seq::<i64>::empty());
        assert(uses(k, times.drop_last()) == Ok::<ApiKey, ApiKeyError>(k));
        assert(consume_rate_limit_spec(&k, true, times.last()) == Ok::<(Option<i64>, i64), ApiKeyError>(
            (Some(times.last()), 1),
        ));
    } else {
        let prefix = times.drop_last();
        assert forall|i: int| 0 < i < prefix.len() implies 0 <= #[trigger] prefix[i] - prefix[i - 1]
            <= k.rate_limit_time_window->0 by {
            assert(prefix[i] == times[i] && prefix[i - 1] == times[i - 1]);
        }
        lemma_uses_count(k, prefix);
        assert(times[times.len() - 1] - times[times.len() - 2] <= k.rate_limit_time_window->0);
        assert(prefix.last() == times[times.len() - 2]);
        let k2 = uses(k, prefix)->Ok_0;
        let t = times.last();
        assert(consume_remaining_spec(&k2, t) is Ok);
        assert(k2.request_count < k2.rate_limit_max->0);
        assert(consume_rate_limit_spec(&k2, true, t) == Ok::<(Option<i64>, i64), ApiKeyError>(
            (Some(t), (k2.request_count + 1) as i64),
        ));
        assert(evaluate_spec(&k2, true, t) is Ok);
    }
}

/// A fresh rate window admits exactly its maximum of uses: `max` uses, each
/// within the window of the one before, are all accepted and counted 1 to
/// `max`, and the next use within the window is refused as rate limited.
pub proof fn law_window_admits_its_maximum(k: ApiKey, times: Seq<i64>, next: i64)
    requires
        k.remaining is None,
        k.rate_limit_enabled,
        k.rate_limit_time_window matches Some(w) && w >= 0 && within_steps(times, w),
        k.rate_limit_max matches Some(m) && times.len() == m,
        k.last_request is None,
        1 <= times.len(),
        0 <= next - times.last() <= k.rate_limit_time_window->0,
    ensures
        uses(k, times) matches Ok(k2) && k2.request_count == k.rate_limit_max->0 && evaluate_spec(&k2, true, next)
            is Err && evaluate_spec(&k2, true, next)->Err_0 is RateLimited,
{
    lemma_uses_count(k, times);
}

/// A use after the rate window has passed starts a new window with this
/// use as its first request; with rate limiting off, the count is left as
/// it was and only the time of the request is recorded.
pub proof fn law_window_restarts_or_is_ignored(k: &ApiKey, now: i64, rate_limit_enabled: bool)
    requires
        consume_remaining_spec(k, now) is Ok,
    ensures
        rate_limit_enabled && k.rate_limit_enabled && k.rate_limit_max is Some && (k.rate_limit_time_window matches Some(
            w,
        ) && (k.last_request matches Some(l) && now - l > w)) ==> (evaluate_spec(k, true, now) matches Ok(u)
            && u.request_count == 1 && u.last_request == Some(now)),
        !rate_limit_enabled || !k.rate_limit_enabled ==> (evaluate_spec(k, rate_limit_enabled, now) matches Ok(u)
            && u.request_count == k.request_count && u.last_request == Some(now)),
{
}

} // verus!
