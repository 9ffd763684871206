//! The error taxonomy of the transfer tool.
//!
//! Structural failures abort the operation that met them; per-item
//! failures during a transfer are recorded in the result log instead and
//! never surface here.

use vstd::prelude::*;

verus! {

/// Every structural failure the library can report.
#[derive(Clone, Copy, PartialEq, Eq, Structural, Debug)]
pub enum SyncError {
    /// The user rejected the consent screen during login.
    AuthDenied,
    /// No authorization callback arrived within the wait window.
    AuthTimeout,
    /// The provider's response to the login exchange was malformed.
    AuthProtocolError,
    /// The named account was never logged in.
    NotFound,
    /// The refresh token was revoked or expired; a new login is needed.
    ReauthRequired,
    /// Rate-limit retries were exhausted; prior progress is preserved.
    RateLimitExceeded,
    /// The credential store's backing medium could not be written.
    StorageIO,
}

impl SyncError {
    /// A short, stable line for the presentation shell to print.
    pub fn message(&self) -> (r: String)
        ensures
            *self == SyncError::AuthDenied ==> r@ == "login was denied"@,
            *self == SyncError::AuthTimeout ==> r@ == "login timed out"@,
            *self == SyncError::AuthProtocolError ==> r@ == "malformed provider response"@,
            *self == SyncError::NotFound ==> r@ == "account is not logged in"@,
            *self == SyncError::ReauthRequired ==> r@ == "credentials revoked; log in again"@,
            *self == SyncError::RateLimitExceeded ==> r@ == "rate limit retries exhausted"@,
            *self == SyncError::StorageIO ==> r@ == "could not write credential storage"@,
    {
        match self {
            SyncError::AuthDenied => "login was denied".to_owned(),
            SyncError::AuthTimeout => "login timed out".to_owned(),
            SyncError::AuthProtocolError => "malformed provider response".to_owned(),
            SyncError::NotFound => "account is not logged in".to_owned(),
            SyncError::ReauthRequired => "credentials revoked; log in again".to_owned(),
            SyncError::RateLimitExceeded => "rate limit retries exhausted".to_owned(),
            SyncError::StorageIO => "could not write credential storage".to_owned(),
        }
    }
}

} // verus!
