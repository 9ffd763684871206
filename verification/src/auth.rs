//! Decisions of the login flow.
//!
//! The flow is linear: show an authorization URL, wait for the redirect
//! callback, exchange the code, store the credential. The waiting and
//! the exchange are network work the application performs; what each
//! outcome means is decided and proved here.

use vstd::prelude::*;
use crate::credentials::{Credential, CredentialStore, lookup};
use crate::errors::SyncError;

verus! {

/// What came out of waiting for the authorization callback.
pub enum CallbackEvent {
    /// The redirect arrived carrying an authorization code.
    Code(String),
    /// The user rejected the consent screen.
    Denied,
    /// No redirect arrived within the wait window.
    TimedOut,
    /// The redirect arrived but carried no readable code.
    Malformed,
}

/// Turn the callback outcome into the code to exchange, or the error
/// the login reports.
pub fn interpret_callback(event: CallbackEvent) -> (r: Result<String, SyncError>)
    ensures
        (match event {
            CallbackEvent::Code(c) => r matches Ok(code) && code == c,
            CallbackEvent::Denied => r == Err::<String, SyncError>(SyncError::AuthDenied),
            CallbackEvent::TimedOut => r == Err::<String, SyncError>(SyncError::AuthTimeout),
            CallbackEvent::Malformed => r == Err::<String, SyncError>(
                SyncError::AuthProtocolError,
            ),
        }),
{
    match event {
        CallbackEvent::Code(c) => Ok(c),
        CallbackEvent::Denied => Err(SyncError::AuthDenied),
        CallbackEvent::TimedOut => Err(SyncError::AuthTimeout),
        CallbackEvent::Malformed => Err(SyncError::AuthProtocolError),
    }
}

/// What came out of exchanging the authorization code for tokens.
pub enum ExchangeResponse {
    /// The provider granted tokens.
    Granted { access_token: String, refresh_token: String, expires_at: u64, scopes: Vec<String> },
    /// The provider's response could not be read.
    Malformed,
}

/// Finish a login: store the granted credential under the account name,
/// or report the protocol error. A failed attempt stores nothing; the
/// whole flow restarts from URL generation.
pub fn complete_login(store: &mut CredentialStore, name: &String, response: ExchangeResponse)
    -> (r: Result<(), SyncError>)
    requires
        old(store).wf(),
    ensures
        final(store).wf(),
        (match response {
            ExchangeResponse::Granted { access_token, refresh_token, expires_at, scopes } => {
                &&& r matches Ok(u) && u == ()
                &&& (lookup(final(store).model(), name@) matches Some(c)
                    && c.access_token == access_token
                    && c.refresh_token == refresh_token
                    && c.expires_at == expires_at
                    && c.scopes == scopes)
                &&& (forall|n: Seq<char>|
                    n != name@ ==> lookup(final(store).model(), n) == lookup(
                        old(store).model(),
                        n,
                    ))
            },
            ExchangeResponse::Malformed => r == Err::<(), SyncError>(SyncError::AuthProtocolError)
                && final(store).model() == old(store).model(),
        }),
{
    match response {
        ExchangeResponse::Granted { access_token, refresh_token, expires_at, scopes } => {
            store.put(
                name,
                Credential { access_token, refresh_token, expires_at, scopes },
            );
            Ok(())
        },
        ExchangeResponse::Malformed => Err(SyncError::AuthProtocolError),
    }
}

} // verus!
