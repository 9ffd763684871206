use spotify_sync::auth::{CallbackEvent, ExchangeResponse, complete_login, interpret_callback};
use spotify_sync::client::{
    CallPrep, MAX_BACKOFF_MS, MAX_RETRIES, RefreshResponse, complete_refresh, next_page_offset,
    on_rate_limit, prepare_call,
};
use spotify_sync::credentials::{Credential, CredentialStore, REFRESH_MARGIN_SECS};
use spotify_sync::errors::SyncError;
use spotify_sync::tui::{App, Screen, SelectedAccount};

fn cred_expiring(expires_at: u64) -> Credential {
    Credential {
        access_token: "access-old".to_string(),
        refresh_token: "refresh-old".to_string(),
        expires_at,
        scopes: vec!["library-read".to_string(), "library-modify".to_string()],
    }
}

#[test]
fn store_put_get_overwrite_list() {
    let mut store = CredentialStore::new();
    assert!(matches!(store.get(&"alice".to_string()), Err(SyncError::NotFound)));

    store.put(&"alice".to_string(), cred_expiring(100));
    store.put(&"bob".to_string(), cred_expiring(200));
    assert_eq!(store.list(), vec!["alice".to_string(), "bob".to_string()]);
    assert_eq!(store.get(&"alice".to_string()).unwrap().expires_at, 100);

    // Overwrite keeps one record per name and its position.
    store.put(&"alice".to_string(), cred_expiring(300));
    assert_eq!(store.list(), vec!["alice".to_string(), "bob".to_string()]);
    assert_eq!(store.get(&"alice".to_string()).unwrap().expires_at, 300);
    assert_eq!(store.get(&"bob".to_string()).unwrap().expires_at, 200);
}

#[test]
fn needs_refresh_at_margin() {
    let now: u64 = 1000;
    assert!(cred_expiring(now).needs_refresh(now));
    assert!(cred_expiring(now + REFRESH_MARGIN_SECS).needs_refresh(now));
    assert!(!cred_expiring(now + REFRESH_MARGIN_SECS + 1).needs_refresh(now));
}

#[test]
fn expired_credential_refreshes_and_rotates() {
    let mut store = CredentialStore::new();
    let name = "source".to_string();
    store.put(&name, cred_expiring(1000));

    // At time 990 the credential is inside the safety margin.
    let prep = prepare_call(&store, &name, 990).unwrap();
    let refresh_token = match prep {
        CallPrep::RefreshFirst(t) => t,
        CallPrep::UseToken(_) => panic!("expected a refresh"),
    };
    assert_eq!(refresh_token, "refresh-old");

    // The provider grants a new access token and rotates the refresh token.
    let token = complete_refresh(
        &mut store,
        &name,
        RefreshResponse::Granted {
            access_token: "access-new".to_string(),
            refresh_token: Some("refresh-new".to_string()),
            expires_at: 5000,
        },
    )
    .unwrap();
    assert_eq!(token, "access-new");

    // The store reflects the rotated credential, and the next call
    // proceeds without another refresh.
    let stored = store.get(&name).unwrap();
    assert_eq!(stored.access_token, "access-new");
    assert_eq!(stored.refresh_token, "refresh-new");
    assert_eq!(stored.expires_at, 5000);
    assert_eq!(
        stored.scopes,
        vec!["library-read".to_string(), "library-modify".to_string()]
    );
    match prepare_call(&store, &name, 990).unwrap() {
        CallPrep::UseToken(t) => assert_eq!(t, "access-new"),
        CallPrep::RefreshFirst(_) => panic!("should be fresh now"),
    }
}

#[test]
fn refresh_without_rotation_keeps_old_refresh_token() {
    let mut store = CredentialStore::new();
    let name = "source".to_string();
    store.put(&name, cred_expiring(0));
    complete_refresh(
        &mut store,
        &name,
        RefreshResponse::Granted {
            access_token: "access-new".to_string(),
            refresh_token: None,
            expires_at: 9000,
        },
    )
    .unwrap();
    assert_eq!(store.get(&name).unwrap().refresh_token, "refresh-old");
}

#[test]
fn revoked_refresh_is_fatal_and_changes_nothing() {
    let mut store = CredentialStore::new();
    let name = "source".to_string();
    store.put(&name, cred_expiring(0));
    let r = complete_refresh(&mut store, &name, RefreshResponse::Revoked);
    assert!(matches!(r, Err(SyncError::ReauthRequired)));
    assert_eq!(store.get(&name).unwrap().access_token, "access-old");
}

#[test]
fn unknown_account_is_not_found() {
    let store = CredentialStore::new();
    assert!(matches!(
        prepare_call(&store, &"nobody".to_string(), 0),
        Err(SyncError::NotFound)
    ));
}

#[test]
fn callback_outcomes_map_to_auth_errors() {
    assert_eq!(
        interpret_callback(CallbackEvent::Code("abc".to_string())).unwrap(),
        "abc"
    );
    assert!(matches!(
        interpret_callback(CallbackEvent::Denied),
        Err(SyncError::AuthDenied)
    ));
    assert!(matches!(
        interpret_callback(CallbackEvent::TimedOut),
        Err(SyncError::AuthTimeout)
    ));
    assert!(matches!(
        interpret_callback(CallbackEvent::Malformed),
        Err(SyncError::AuthProtocolError)
    ));
}

#[test]
fn login_stores_granted_credential() {
    let mut store = CredentialStore::new();
    let name = "target".to_string();
    complete_login(
        &mut store,
        &name,
        ExchangeResponse::Granted {
            access_token: "a".to_string(),
            refresh_token: "r".to_string(),
            expires_at: 77,
            scopes: vec![],
        },
    )
    .unwrap();
    assert_eq!(store.get(&name).unwrap().expires_at, 77);

    let bad = complete_login(&mut store, &"other".to_string(), ExchangeResponse::Malformed);
    assert!(matches!(bad, Err(SyncError::AuthProtocolError)));
    assert!(matches!(store.get(&"other".to_string()), Err(SyncError::NotFound)));
}

#[test]
fn rate_limit_backoff_and_exhaustion() {
    assert_eq!(on_rate_limit(0, None).unwrap(), 1000);
    assert_eq!(on_rate_limit(1, None).unwrap(), 2000);
    assert_eq!(on_rate_limit(4, None).unwrap(), 16000);
    assert_eq!(on_rate_limit(2, Some(500)).unwrap(), 500);
    assert_eq!(on_rate_limit(2, Some(MAX_BACKOFF_MS + 1)).unwrap(), MAX_BACKOFF_MS);
    assert!(matches!(
        on_rate_limit(MAX_RETRIES, None),
        Err(SyncError::RateLimitExceeded)
    ));
}

#[test]
fn pagination_stops_at_the_end() {
    assert_eq!(next_page_offset(0, 50, 120), Some(50));
    assert_eq!(next_page_offset(50, 50, 120), Some(100));
    assert_eq!(next_page_offset(100, 20, 120), None);
    assert_eq!(next_page_offset(0, 0, 120), None);
}

#[test]
fn error_messages_are_stable() {
    assert_eq!(SyncError::NotFound.message(), "account is not logged in");
    assert_eq!(
        SyncError::ReauthRequired.message(),
        "credentials revoked; log in again"
    );
}

#[test]
fn picker_starts_on_account_selection() {
    let app = App::new(vec!["a".to_string(), "b".to_string()]);
    assert_eq!(app.screen, Screen::AccountSelection);
    assert_eq!(app.selected_account, SelectedAccount::Source);
    assert_eq!(app.selected_index, 0);
    assert!(!app.can_start_transfer());
    assert!(!app.should_quit);
}

#[test]
fn picker_moves_wrap_around() {
    let mut app = App::new(vec!["a".to_string(), "b".to_string(), "c".to_string()]);
    app.next_account();
    assert_eq!(app.selected_index, 1);
    app.next_account();
    app.next_account();
    assert_eq!(app.selected_index, 0);
    app.previous_account();
    assert_eq!(app.selected_index, 2);

    let mut empty = App::new(vec![]);
    empty.next_account();
    empty.previous_account();
    assert_eq!(empty.selected_index, 0);
}

#[test]
fn picker_selects_source_then_target() {
    let mut app = App::new(vec!["a".to_string(), "b".to_string()]);
    app.next_account();
    app.select_current_account();
    assert_eq!(app.source_account, Some("b".to_string()));
    assert_eq!(app.selected_account, SelectedAccount::Target);
    assert_eq!(app.selected_index, 0);
    assert!(!app.can_start_transfer());

    app.select_current_account();
    assert_eq!(app.target_account, Some("a".to_string()));
    assert!(app.can_start_transfer());

    app.begin_transfer();
    assert_eq!(app.screen, Screen::TransferProgress);
    app.finish_transfer();
    assert_eq!(app.screen, Screen::Complete);
    app.quit();
    assert!(app.should_quit);
}
