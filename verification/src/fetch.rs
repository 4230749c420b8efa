//! Typed fetch outcomes, response classification, and the
//! exponential-backoff retry policy of the remote client.

use vstd::prelude::*;

verus! {

/// Retry attempts allowed for one entity within one poll cycle.
pub const MAX_FETCH_ATTEMPTS: u32 = 3;

/// Backoff delay before the first retry, in milliseconds.
pub const BACKOFF_BASE_MS: u64 = 500;

/// Upper bound on any single backoff delay, in milliseconds.
pub const BACKOFF_CAP_MS: u64 = 60000;

/// Why a fetch failed.
#[derive(Clone, Copy, Debug, PartialEq, Eq, Structural)]
pub enum FetchError {
    /// The entity does not exist; skipped for this cycle, not
    /// retried.
    NotFound,
    /// The request quota is exhausted; carries the absolute reset
    /// time in seconds, so the scheduler can back off until then.
    RateLimited {
        /// When the quota window resets, in seconds.
        reset: u64,
    },
    /// A network failure or server-side error; eligible for bounded
    /// retry with exponential backoff.
    Transient,
    /// The credential was rejected; logged, not retried.
    Auth,
}

/// How a response status maps onto the failure taxonomy: a success
/// status is no failure; 404 is `NotFound`; 401 is `Auth`; 403 and
/// 429 with a quota-reset header are `RateLimited`; anything else,
/// server errors included, is `Transient`.
pub open spec fn classify_status_spec(status: u16, reset: Option<u64>) -> Option<FetchError> {
    if 200 <= status < 300 {
        None
    } else if status == 404 {
        Some(FetchError::NotFound)
    } else if status == 401 {
        Some(FetchError::Auth)
    } else if status == 403 || status == 429 {
        match reset {
            Some(r) => Some(FetchError::RateLimited { reset: r }),
            None => Some(FetchError::Transient),
        }
    } else {
        Some(FetchError::Transient)
    }
}

/// Classifies one response status together with its quota-reset
/// header, if any, matching `classify_status_spec`.
pub fn classify_status(status: u16, reset: Option<u64>) -> (res: Option<FetchError>)
    ensures
        res == classify_status_spec(status, reset),
{
    if 200 <= status && status < 300 {
        None
    } else if status == 404 {
        Some(FetchError::NotFound)
    } else if status == 401 {
        Some(FetchError::Auth)
    } else if status == 403 || status == 429 {
        match reset {
            Some(r) => Some(FetchError::RateLimited { reset: r }),
            None => Some(FetchError::Transient),
        }
    } else {
        Some(FetchError::Transient)
    }
}

/// The delay before retry number `attempt + 1`: the base delay
/// doubled `attempt` times, capped.
pub open spec fn backoff_delay_spec(attempt: nat) -> nat
    decreases attempt,
{
    if attempt == 0 {
        BACKOFF_BASE_MS as nat
    } else {
        let p = backoff_delay_spec((attempt - 1) as nat);
        if 2 * p > BACKOFF_CAP_MS {
            BACKOFF_CAP_MS as nat
        } else {
            2 * p
        }
    }
}

/// Every backoff delay stays within the cap.
pub proof fn lemma_backoff_bounded(attempt: nat)
    ensures
        backoff_delay_spec(attempt) <= BACKOFF_CAP_MS,
    decreases attempt,
{
    if attempt > 0 {
        lemma_backoff_bounded((attempt - 1) as nat);
    }
}

/// Computes the backoff delay, matching `backoff_delay_spec`.
pub fn backoff_delay_ms(attempt: u32) -> (res: u64)
    ensures
        res == backoff_delay_spec(attempt as nat),
{
    let mut d: u64 = BACKOFF_BASE_MS;
    let mut k: u32 = 0;
    proof {
        lemma_backoff_bounded(0);
    }
    while k < attempt
        invariant
            0 <= k <= attempt,
            d == backoff_delay_spec(k as nat),
            d <= BACKOFF_CAP_MS,
        decreases attempt - k,
    {
        if d > BACKOFF_CAP_MS / 2 {
            d = BACKOFF_CAP_MS;
        } else {
            d = 2 * d;
        }
        k = k + 1;
        proof {
            lemma_backoff_bounded(k as nat);
        }
    }
    d
}

} // verus!
