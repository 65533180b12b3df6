//! The authenticate() state machine, driven through whole scenarios.

use aichat::authenticator::{
    ApiKeyAuthenticator, Authenticator, OAuthAuthenticator, OAuthConfig, get_oauth_redirect_uri,
};
use aichat::credentials::{Credentials, CredentialStore, UserInfo, render_credentials};
use aichat::machine::{
    step, AuthAction, AuthError, AuthEvent, AuthState, RedirectOutcome,
};

fn test_config() -> OAuthConfig {
    OAuthConfig {
        client_id: "cid".to_string(),
        client_secret: "csec".to_string(),
        redirect_uri: None,
        scopes: None,
    }
}

/// Walk the machine to the redirect and give back its state and the CSRF
/// token it generated.
fn walk_to_redirect(cfg: &OAuthConfig) -> (AuthState, String) {
    let (st, act) = step(cfg, AuthState::AwaitRead, AuthEvent::ReadDone { content: None, now: 1000 });
    match &act {
        AuthAction::BindPort { hint } => assert_eq!(*hint, Some(37387)),
        _ => panic!("expected a bind"),
    }
    let (st, act) = step(cfg, st, AuthEvent::PortDone { port: Some(37387) });
    let csrf = match &st {
        AuthState::AwaitRedirect { attempt } => {
            assert_eq!(attempt.redirect_uri, "http://localhost:37387/");
            assert_eq!(attempt.csrf.len(), 22);
            assert_eq!(attempt.verifier.len(), 43);
            match &act {
                AuthAction::OpenBrowserAndListen { url, redacted_url } => {
                    assert!(url.contains(&attempt.challenge));
                    assert!(url.contains(&attempt.csrf));
                    assert!(!redacted_url.contains(&attempt.csrf));
                    assert!(!redacted_url.contains(&attempt.challenge));
                    assert!(!redacted_url.contains("cid"));
                    assert!(redacted_url.contains("REDACTED"));
                },
                _ => panic!("expected the browser action"),
            }
            attempt.csrf.clone()
        },
        _ => panic!("expected the redirect wait"),
    };
    (st, csrf)
}

#[test]
fn fresh_login_stores_and_returns_new_token() {
    let cfg = test_config();
    let (st, csrf) = walk_to_redirect(&cfg);
    let line = format!("GET /oauth2callback?code=abc&state={} HTTP/1.1", csrf);
    let (st, act) = step(&cfg, st, AuthEvent::RedirectDone { outcome: RedirectOutcome::Line(line) });
    assert!(matches!(st, AuthState::AwaitExchange));
    match &act {
        AuthAction::ExchangeRequest { url, body, respond } => {
            assert_eq!(url, "https://oauth2.googleapis.com/token");
            assert!(body.contains("grant_type=authorization_code"));
            assert!(body.contains("code=abc"));
            assert!(respond.starts_with("HTTP/1.1 200 OK"));
        },
        _ => panic!("expected the exchange"),
    }
    let body = "{\"access_token\":\"T1\",\"refresh_token\":\"R1\",\"expires_in\":3600}"
        .to_string();
    let (st, act) = step(&cfg, st, AuthEvent::TokenDone { response: Some((200, body)), now: 1000 });
    match (&st, &act) {
        (AuthState::AwaitLoginWrite { creds }, AuthAction::WriteStore { content }) => {
            assert_eq!(creds.access_token, "T1");
            assert_eq!(creds.refresh_token.as_deref(), Some("R1"));
            assert_eq!(creds.expiry_date, Some(4600));
            let back = aichat::credentials::parse_credentials(content).unwrap();
            assert!(back == *creds);
        },
        _ => panic!("expected the write"),
    }
    let (st, act) = step(&cfg, st, AuthEvent::WriteDone { ok: true });
    match &act {
        AuthAction::FetchUserInfo { url, access_token } => {
            assert_eq!(url, "https://www.googleapis.com/oauth2/v2/userinfo");
            assert_eq!(access_token, "T1");
        },
        _ => panic!("expected the user-info fetch"),
    }
    // The enrichment succeeds and is persisted best-effort.
    let (st, act) = step(
        &cfg,
        st,
        AuthEvent::UserInfoDone { email: Some("a@b.example".to_string()) },
    );
    match &act {
        AuthAction::WriteStore { content } => {
            let back = aichat::credentials::parse_credentials(content).unwrap();
            assert!(back.user_info == Some(UserInfo { email: "a@b.example".to_string() }));
            assert_eq!(back.access_token, "T1");
        },
        _ => panic!("expected the enrich write"),
    }
    let (_st, act) = step(&cfg, st, AuthEvent::WriteDone { ok: false });
    match act {
        AuthAction::Finish { token } => assert_eq!(token, "T1"),
        _ => panic!("an enrich-write failure must not fail the login"),
    }
}

#[test]
fn csrf_mismatch_aborts_without_exchange_or_write() {
    let cfg = test_config();
    let (st, _csrf) = walk_to_redirect(&cfg);
    let line = "GET /oauth2callback?code=abc&state=wrong HTTP/1.1".to_string();
    let (st, act) = step(&cfg, st, AuthEvent::RedirectDone { outcome: RedirectOutcome::Line(line) });
    assert!(matches!(st, AuthState::Failed { error: AuthError::CsrfMismatch }));
    match act {
        AuthAction::Fail { error, respond } => {
            assert_eq!(error, AuthError::CsrfMismatch);
            assert!(respond.unwrap().contains("State mismatch"));
        },
        _ => panic!("expected the failure"),
    }
}

#[test]
fn missing_code_or_state_fails_fast() {
    let cfg = test_config();
    let (st, csrf) = walk_to_redirect(&cfg);
    let line = format!("GET /oauth2callback?state={} HTTP/1.1", csrf);
    let (st, act) = step(&cfg, st, AuthEvent::RedirectDone { outcome: RedirectOutcome::Line(line) });
    assert!(matches!(st, AuthState::Failed { error: AuthError::MissingCodeOrState }));
    match act {
        AuthAction::Fail { error, respond } => {
            assert_eq!(error, AuthError::MissingCodeOrState);
            assert!(respond.unwrap().contains("No code or state"));
        },
        _ => panic!("expected the failure"),
    }
}

#[test]
fn redirect_timeout_fails() {
    let cfg = test_config();
    let (st, _csrf) = walk_to_redirect(&cfg);
    let (st, _act) = step(&cfg, st, AuthEvent::RedirectDone { outcome: RedirectOutcome::Timeout });
    assert!(matches!(st, AuthState::Failed { error: AuthError::AuthorizationTimeout }));
}

fn stale_record() -> Credentials {
    Credentials {
        access_token: "T0".to_string(),
        refresh_token: Some("R0".to_string()),
        token_type: None,
        expiry_date: Some(990),
        user_info: None,
    }
}

#[test]
fn expired_record_refreshes_and_carries_refresh_token() {
    let cfg = test_config();
    let text = render_credentials(&stale_record());
    // now = 1000 >= expiry 990: refresh.
    let (st, act) = step(
        &cfg,
        AuthState::AwaitRead,
        AuthEvent::ReadDone { content: Some(text), now: 1000 },
    );
    match &act {
        AuthAction::RefreshRequest { url, body } => {
            assert_eq!(url, "https://oauth2.googleapis.com/token");
            assert!(body.contains("grant_type=refresh_token"));
            assert!(body.contains("refresh_token=R0"));
        },
        _ => panic!("expected the refresh"),
    }
    // The endpoint answers without a new refresh token: R0 is carried over.
    let body = "{\"access_token\":\"T1\",\"expires_in\":3600}".to_string();
    let (st, act) = step(&cfg, st, AuthEvent::TokenDone { response: Some((200, body)), now: 1000 });
    match (&st, &act) {
        (AuthState::AwaitRefreshWrite { creds }, AuthAction::WriteStore { content }) => {
            assert_eq!(creds.access_token, "T1");
            assert_eq!(creds.refresh_token.as_deref(), Some("R0"));
            assert_eq!(creds.expiry_date, Some(4600));
            let back = aichat::credentials::parse_credentials(content).unwrap();
            assert!(back == *creds);
        },
        _ => panic!("expected the write"),
    }
    let (_st, act) = step(&cfg, st, AuthEvent::WriteDone { ok: true });
    match act {
        AuthAction::Finish { token } => assert_eq!(token, "T1"),
        _ => panic!("expected the finish"),
    }
}

#[test]
fn failed_refresh_returns_stale_token() {
    let cfg = test_config();
    let text = render_credentials(&stale_record());
    let (st, _act) = step(
        &cfg,
        AuthState::AwaitRead,
        AuthEvent::ReadDone { content: Some(text), now: 1000 },
    );
    let body = "{\"error\":\"invalid_grant\"}".to_string();
    let (st, act) = step(&cfg, st, AuthEvent::TokenDone { response: Some((400, body)), now: 1000 });
    assert!(matches!(st, AuthState::Done { .. }));
    match act {
        AuthAction::Finish { token } => assert_eq!(token, "T0"),
        _ => panic!("a failed refresh must fall back to the stale token"),
    }
}

#[test]
fn record_without_expiry_never_refreshes() {
    let cfg = test_config();
    let c = Credentials {
        access_token: "T0".to_string(),
        refresh_token: Some("R0".to_string()),
        token_type: None,
        expiry_date: None,
        user_info: None,
    };
    let text = render_credentials(&c);
    let (st, act) = step(
        &cfg,
        AuthState::AwaitRead,
        AuthEvent::ReadDone { content: Some(text), now: i64::MAX },
    );
    assert!(matches!(st, AuthState::Done { .. }));
    match act {
        AuthAction::Finish { token } => assert_eq!(token, "T0"),
        _ => panic!("no refresh may happen without an expiry"),
    }
}

#[test]
fn fresh_record_is_returned_without_refresh() {
    let cfg = test_config();
    let mut c = stale_record();
    c.expiry_date = Some(2000);
    let text = render_credentials(&c);
    // now = 1000 < expiry 2000.
    let (_st, act) = step(
        &cfg,
        AuthState::AwaitRead,
        AuthEvent::ReadDone { content: Some(text), now: 1000 },
    );
    match act {
        AuthAction::Finish { token } => assert_eq!(token, "T0"),
        _ => panic!("a fresh record is used as it is"),
    }
}

#[test]
fn missing_or_corrupt_store_starts_login() {
    let cfg = test_config();
    let (_st, act) = step(&cfg, AuthState::AwaitRead, AuthEvent::ReadDone { content: None, now: 5 });
    assert!(matches!(act, AuthAction::BindPort { .. }));
    let (_st, act) = step(
        &cfg,
        AuthState::AwaitRead,
        AuthEvent::ReadDone { content: Some("{broken".to_string()), now: 5 },
    );
    assert!(matches!(act, AuthAction::BindPort { .. }));
}

#[test]
fn failed_user_info_still_returns_token() {
    let cfg = test_config();
    let creds = Credentials {
        access_token: "T1".to_string(),
        refresh_token: None,
        token_type: None,
        expiry_date: None,
        user_info: None,
    };
    let (st, act) = step(
        &cfg,
        AuthState::AwaitUserInfo { creds },
        AuthEvent::UserInfoDone { email: None },
    );
    assert!(matches!(st, AuthState::Done { .. }));
    match act {
        AuthAction::Finish { token } => assert_eq!(token, "T1"),
        _ => panic!("a failed user-info fetch must not fail the login"),
    }
}

#[test]
fn write_failure_after_exchange_is_terminal() {
    let cfg = test_config();
    let creds = Credentials {
        access_token: "T1".to_string(),
        refresh_token: None,
        token_type: None,
        expiry_date: None,
        user_info: None,
    };
    let (st, _act) = step(
        &cfg,
        AuthState::AwaitLoginWrite { creds },
        AuthEvent::WriteDone { ok: false },
    );
    assert!(matches!(st, AuthState::Failed { error: AuthError::IoError }));
}

#[test]
fn exchange_failure_is_terminal() {
    let cfg = test_config();
    let (st, _act) = step(
        &cfg,
        AuthState::AwaitExchange,
        AuthEvent::TokenDone { response: Some((500, "oops".to_string())), now: 0 },
    );
    assert!(matches!(st, AuthState::Failed { error: AuthError::TokenEndpointError }));
    let (st, _act) = step(
        &cfg,
        AuthState::AwaitExchange,
        AuthEvent::TokenDone { response: None, now: 0 },
    );
    assert!(matches!(st, AuthState::Failed { error: AuthError::TokenEndpointError }));
}

#[test]
fn port_bind_failure_is_terminal() {
    let cfg = test_config();
    let (st, _act) = step(&cfg, AuthState::AwaitPort, AuthEvent::PortDone { port: None });
    assert!(matches!(st, AuthState::Failed { error: AuthError::PortBindFailure }));
}

#[test]
fn api_key_variant_authenticates_at_once() {
    let a = ApiKeyAuthenticator::new("key-1".to_string());
    assert_eq!(a.authenticate().unwrap(), "key-1");

    let auth = Authenticator::ApiKey(a);
    let (st, act) = auth.begin();
    assert!(matches!(st, AuthState::Done { .. }));
    match act {
        AuthAction::Finish { token } => assert_eq!(token, "key-1"),
        _ => panic!("the static variant finishes at once"),
    }

    let cfg = test_config();
    let store = CredentialStore::new("/home/u");
    let oauth = Authenticator::OAuth(OAuthAuthenticator::new(cfg, store));
    let (st, act) = oauth.begin();
    assert!(matches!(st, AuthState::AwaitRead));
    assert!(matches!(act, AuthAction::ReadStore));
}

#[test]
fn configured_redirect_uri_drives_the_port_hint() {
    let mut cfg = test_config();
    cfg.redirect_uri = Some("http://localhost:9099/cb".to_string());
    assert_eq!(get_oauth_redirect_uri(&cfg), "http://localhost:9099/cb");
    let (_st, act) = step(&cfg, AuthState::AwaitRead, AuthEvent::ReadDone { content: None, now: 0 });
    match act {
        AuthAction::BindPort { hint } => assert_eq!(hint, Some(9099)),
        _ => panic!("expected a bind"),
    }
}
