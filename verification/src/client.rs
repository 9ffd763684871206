//! Decisions of the service client: token freshness, refresh rotation,
//! rate-limit backoff and pagination.
//!
//! The client wraps every remote call. Before a call it decides whether
//! the bound credential must refresh first; after a refresh exchange it
//! rotates the stored credential; on a rate-limit signal it decides the
//! wait and whether to retry at all. The application performs the
//! network work between these decisions.

use vstd::prelude::*;
use crate::credentials::{Credential, CredentialStore, lookup};
use crate::errors::SyncError;

verus! {

/// How many times one rate-limited call is retried before failing.
pub const MAX_RETRIES: u32 = 5;

/// Longest wait accepted before one retry, in milliseconds.
pub const MAX_BACKOFF_MS: u64 = 60000;

/// What must happen before a remote call can go out.
pub enum CallPrep {
    /// The credential is fresh: call with this access token.
    UseToken(String),
    /// The credential is stale: run a refresh exchange with this
    /// refresh token first.
    RefreshFirst(String),
}

/// Decide how a call for `name` may proceed at time `now`: not logged
/// in, fresh enough to call, or refresh first.
pub fn prepare_call(store: &CredentialStore, name: &String, now: u64) -> (r: Result<
    CallPrep,
    SyncError,
>)
    ensures
        (match lookup(store.model(), name@) {
            None => r == Err::<CallPrep, SyncError>(SyncError::NotFound),
            Some(c) => if c.spec_needs_refresh(now) {
                r matches Ok(p) && p matches CallPrep::RefreshFirst(t) && t == c.refresh_token
            } else {
                r matches Ok(p) && p matches CallPrep::UseToken(t) && t == c.access_token
            },
        }),
{
    match store.get(name) {
        Err(e) => Err(e),
        Ok(cred) => {
            if cred.needs_refresh(now) {
                Ok(CallPrep::RefreshFirst(cred.refresh_token.clone()))
            } else {
                Ok(CallPrep::UseToken(cred.access_token.clone()))
            }
        },
    }
}

/// What the provider answered to a refresh exchange.
pub enum RefreshResponse {
    /// New tokens; the refresh token rotates only when one is sent.
    Granted { access_token: String, refresh_token: Option<String>, expires_at: u64 },
    /// The grant was revoked; only a new login can help.
    Revoked,
}

/// Rotate the stored credential after a refresh exchange and hand back
/// the access token for the pending call; a revoked grant is fatal and
/// leaves the store as it was.
pub fn complete_refresh(store: &mut CredentialStore, name: &String, response: RefreshResponse)
    -> (r: Result<String, SyncError>)
    requires
        old(store).wf(),
        lookup(old(store).model(), name@) is Some,
    ensures
        final(store).wf(),
        (match response {
            RefreshResponse::Granted { access_token, refresh_token, expires_at } => {
                &&& r matches Ok(t) && t@ == access_token@
                &&& (lookup(final(store).model(), name@) matches Some(c)
                    && c.access_token == access_token
                    && c.expires_at == expires_at
                    && (match refresh_token {
                        Some(t2) => c.refresh_token == t2,
                        None => c.refresh_token
                            == lookup(old(store).model(), name@).unwrap().refresh_token,
                    })
                    && c.scopes@ == lookup(old(store).model(), name@).unwrap().scopes@)
                &&& (forall|n: Seq<char>|
                    n != name@ ==> lookup(final(store).model(), n) == lookup(
                        old(store).model(),
                        n,
                    ))
            },
            RefreshResponse::Revoked => r == Err::<String, SyncError>(SyncError::ReauthRequired)
                && final(store).model() == old(store).model(),
        }),
{
    match response {
        RefreshResponse::Revoked => Err(SyncError::ReauthRequired),
        RefreshResponse::Granted { access_token, refresh_token, expires_at } => {
            let rotated = match store.get(name) {
                Ok(cred) => cred.rotated(access_token, refresh_token, expires_at),
                Err(_) => {
                    return Err(SyncError::NotFound);
                },
            };
            let token = rotated.access_token.clone();
            store.put(name, rotated);
            Ok(token)
        },
    }
}

/// The wait before retry number `attempt`: the provider's hint capped
/// at the maximum, else an exponential default capped the same way.
pub open spec fn spec_backoff(attempt: u32, provider_wait_ms: Option<u64>) -> u64 {
    match provider_wait_ms {
        Some(d) => if d > MAX_BACKOFF_MS {
            MAX_BACKOFF_MS
        } else {
            d
        },
        None => match attempt {
            0u32 => 1000u64,
            1u32 => 2000u64,
            2u32 => 4000u64,
            3u32 => 8000u64,
            4u32 => 16000u64,
            _ => 32000u64,
        },
    }
}

/// Decide what a rate-limit signal on retry `attempt` means: wait this
/// long and retry, or give up with `RateLimitExceeded`.
pub fn on_rate_limit(attempt: u32, provider_wait_ms: Option<u64>) -> (r: Result<u64, SyncError>)
    ensures
        attempt < MAX_RETRIES ==> r == Ok::<u64, SyncError>(spec_backoff(
            attempt,
            provider_wait_ms,
        )),
        attempt >= MAX_RETRIES ==> r == Err::<u64, SyncError>(SyncError::RateLimitExceeded),
{
    if attempt >= MAX_RETRIES {
        return Err(SyncError::RateLimitExceeded);
    }
    let wait = match provider_wait_ms {
        Some(d) => if d > MAX_BACKOFF_MS {
            MAX_BACKOFF_MS
        } else {
            d
        },
        None => match attempt {
            0u32 => 1000u64,
            1u32 => 2000u64,
            2u32 => 4000u64,
            3u32 => 8000u64,
            4u32 => 16000u64,
            _ => 32000u64,
        },
    };
    Ok(wait)
}

/// Where the next page request starts, if the enumeration is not done:
/// a caller that stops consuming issues no further request.
pub fn next_page_offset(offset: usize, page_len: usize, total: usize) -> (r: Option<usize>)
    requires
        offset + page_len <= total,
    ensures
        (page_len > 0 && offset + page_len < total) ==> r == Some((offset + page_len) as usize),
        (page_len == 0 || offset + page_len >= total) ==> r is None,
{
    if page_len > 0 && offset + page_len < total {
        Some(offset + page_len)
    } else {
        None
    }
}

} // verus!
