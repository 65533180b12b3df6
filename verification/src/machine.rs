//! The `authenticate()` state machine of the OAuth variant.
//!
//! One call is a run of this machine: the caller performs each returned
//! action (read the store, bind the listener, open the browser, post to the
//! token endpoint, write the store, fetch the user info) and hands the
//! outcome back as the next event, until the action is `Finish` or `Fail`.
//! Every decision — the cache and refresh policy, the CSRF check, what the
//! redirect and the token responses mean, what is persisted — is taken
//! here, and [`step_ok`] pins each transition down.

use vstd::prelude::*;
use vstd::string::{StringExecFns, StrSliceExecFns};
use crate::authenticator::{
    OAuthConfig, cfg_redirect_uri, cfg_scopes_text, auth_endpoint_text, token_endpoint_text,
    userinfo_endpoint_text, token_endpoint, userinfo_endpoint, scopes_param,
    get_oauth_redirect_uri,
};
use crate::credentials::{
    Credentials, CredView, UserInfo, CredentialStore, parse_credentials_text, parse_credentials,
    spec_render_credentials,
};
use crate::token_response::{TokenPayload, TokenPayloadView, parse_token_response_text,
    parse_token_response};
use crate::urlq::{
    port_of_uri, port_of_uri_exec, request_path, query_of_path, query_param, http_ok_text,
    http_ok_response, authorize_url_text, redacted_authorize_url_text, build_authorize_url,
    build_redacted_authorize_url, exchange_body_text, refresh_body_text, build_exchange_body,
    build_refresh_body, request_path_exec, query_of_path_exec, query_param_exec,
};
use crate::json::render_int;
use crate::oauth_external::{pkce_challenge_of, new_random_pkce, new_random_csrf};

verus! {

/// Why one `authenticate()` call failed.
#[derive(Clone, Copy, Debug, PartialEq, Eq, Structural)]
pub enum AuthError {
    IoError,
    CorruptCredentials,
    PortBindFailure,
    AuthorizationTimeout,
    CsrfMismatch,
    MissingCodeOrState,
    TokenEndpointError,
    BrowserLaunchFailure,
    RefreshFailure,
}

/// The secrets of one login attempt; discarded with the attempt.
pub struct LoginAttempt {
    pub verifier: String,
    pub challenge: String,
    pub csrf: String,
    pub redirect_uri: String,
}

/// Where one `authenticate()` call stands.
pub enum AuthState {
    /// Waiting for the stored record.
    AwaitRead,
    /// Waiting for the token endpoint's answer to a refresh.
    AwaitRefresh { stale: Credentials },
    /// Waiting for the refreshed record to be persisted.
    AwaitRefreshWrite { creds: Credentials },
    /// Waiting for the listener port.
    AwaitPort,
    /// Waiting for the browser redirect.
    AwaitRedirect { attempt: LoginAttempt },
    /// Waiting for the token endpoint's answer to the code exchange.
    AwaitExchange,
    /// Waiting for the fresh record to be persisted.
    AwaitLoginWrite { creds: Credentials },
    /// Waiting for the best-effort user-info fetch.
    AwaitUserInfo { creds: Credentials },
    /// Waiting for the enriched record to be persisted (failure ignored).
    AwaitEnrichWrite { token: String },
    /// The call succeeded with this access token.
    Done { token: String },
    /// The call failed.
    Failed { error: AuthError },
}

/// What happened while waiting for the redirect.
pub enum RedirectOutcome {
    /// The first request line the listener read.
    Line(String),
    /// No request came within the allowed time.
    Timeout,
    /// The browser could not be opened.
    LaunchFailed,
    /// The listener failed while accepting or reading.
    ListenFailed,
}

/// What the caller reports back to the machine.
pub enum AuthEvent {
    /// The stored record's text, `None` when the file does not exist,
    /// and the current time in epoch seconds.
    ReadDone { content: Option<String>, now: i64 },
    /// The port the listener was bound to, `None` when binding failed.
    PortDone { port: Option<u16> },
    /// What the wait for the redirect produced.
    RedirectDone { outcome: RedirectOutcome },
    /// The token endpoint's status and body, `None` on a network failure,
    /// and the current time in epoch seconds.
    TokenDone { response: Option<(u16, String)>, now: i64 },
    /// Whether persisting the record succeeded.
    WriteDone { ok: bool },
    /// The email from the userinfo endpoint, `None` on any failure.
    UserInfoDone { email: Option<String> },
}

/// What the caller must do next.
pub enum AuthAction {
    /// Read the credential store's file.
    ReadStore,
    /// Bind the loopback listener: to the hinted port, else to any free one.
    BindPort { hint: Option<u16> },
    /// Open the URL in the browser (echo the redacted form only) and wait
    /// for one redirect on the listener.
    OpenBrowserAndListen { url: String, redacted_url: String },
    /// Post the body to the token endpoint to refresh.
    RefreshRequest { url: String, body: String },
    /// Answer the browser with `respond`, then post the body to the token
    /// endpoint to exchange the code.
    ExchangeRequest { url: String, body: String, respond: String },
    /// Replace the store's file with this text.
    WriteStore { content: String },
    /// Fetch the user info with this token, best-effort.
    FetchUserInfo { url: String, access_token: String },
    /// The call is over: hand this token to the caller.
    Finish { token: String },
    /// The call is over: surface this error; answer the browser first when
    /// a page is given.
    Fail { error: AuthError, respond: Option<String> },
}

// ---------------------------------------------------------------------------
// Pieces of the contract
// ---------------------------------------------------------------------------
/// Saturating signed addition, for `now + expires_in`.
pub open spec fn sat_add_i64(a: i64, b: i64) -> i64 {
    if a + b > i64::MAX {
        i64::MAX
    } else if a + b < i64::MIN {
        i64::MIN
    } else {
        (a + b) as i64
    }
}

fn sat_add(a: i64, b: i64) -> (r: i64)
    ensures
        r == sat_add_i64(a, b),
{
    if b >= 0 {
        if a > i64::MAX - b {
            i64::MAX
        } else {
            a + b
        }
    } else {
        if a < i64::MIN - b {
            i64::MIN
        } else {
            a + b
        }
    }
}

/// The record a token response makes: a fresh access token, the response's
/// refresh token or the carried one, and `now + expires_in` as the expiry.
pub open spec fn cred_from_token(
    tp: TokenPayloadView,
    now: i64,
    carry_rt: Option<Seq<char>>,
    carry_ui: Option<Seq<char>>,
) -> CredView {
    CredView {
        access_token: tp.access_token,
        refresh_token: if tp.refresh_token is Some {
            tp.refresh_token
        } else {
            carry_rt
        },
        token_type: tp.token_type,
        expiry_date: match tp.expires_in {
            Some(d) => Some(sat_add_i64(now, d)),
            None => None,
        },
        email: carry_ui,
    }
}

fn creds_from_payload(
    tp: TokenPayload,
    now: i64,
    carry_rt: Option<String>,
    carry_ui: Option<UserInfo>,
) -> (r: Credentials)
    ensures
        r@ == cred_from_token(
            tp@,
            now,
            match carry_rt {
                Some(t) => Some(t@),
                None => None,
            },
            match carry_ui {
                Some(u) => Some(u.email@),
                None => None,
            },
        ),
{
    let refresh_token = match tp.refresh_token {
        Some(t) => Some(t),
        None => carry_rt,
    };
    let expiry_date = match tp.expires_in {
        Some(d) => Some(sat_add(now, d)),
        None => None,
    };
    Credentials {
        access_token: tp.access_token,
        refresh_token,
        token_type: tp.token_type,
        expiry_date,
        user_info: carry_ui,
    }
}

/// The redirect URI of an attempt on the given listener port.
pub open spec fn redirect_uri_text(port: u16) -> Seq<char> {
    "http://localhost:"@ + render_int(port as int) + "/"@
}

fn build_redirect_uri(port: u16) -> (r: String)
    ensures
        r@ == redirect_uri_text(port),
{
    let mut out: Vec<char> = Vec::new();
    crate::json::push_str_chars(&mut out, "http://localhost:");
    crate::json::push_int(&mut out, port as i64);
    crate::json::push_str_chars(&mut out, "/");
    proof {
        assert(out@ =~= redirect_uri_text(port));
    }
    crate::chars::chars_to_string(&out)
}

/// The page sent to the browser on a successful redirect.
pub open spec fn success_page() -> Seq<char> {
    "Authentication successful! You can close this tab."@
}

/// The page sent when the redirect omits `code` or `state`.
pub open spec fn missing_page() -> Seq<char> {
    "No code or state found in redirect URL."@
}

/// The page sent when the redirect's state does not match.
pub open spec fn csrf_page() -> Seq<char> {
    "State mismatch. Possible CSRF attack."@
}

/// The attempt starts: bind the listener, to the redirect URI's port when
/// it names one.
pub open spec fn login_start_ok(cfg: OAuthConfig, post: AuthState, action: AuthAction) -> bool {
    &&& post is AwaitPort
    &&& action matches AuthAction::BindPort { hint } && hint == port_of_uri(cfg_redirect_uri(cfg))
}

/// The call ends with this error and no page.
pub open spec fn failed_ok(e: AuthError, post: AuthState, action: AuthAction) -> bool {
    &&& post matches AuthState::Failed { error } && error == e
    &&& action matches AuthAction::Fail { error: e2, respond } && e2 == e && respond is None
}

/// The call ends with the given still-usable token.
pub open spec fn finish_ok(tok: Seq<char>, post: AuthState, action: AuthAction) -> bool {
    &&& post matches AuthState::Done { token } && token@ == tok
    &&& action matches AuthAction::Finish { token: t } && t@ == tok
}

/// What reading the store decides: no record or a corrupt one starts the
/// interactive login; an expired record with a refresh token is refreshed
/// exactly once; any other record's token is returned as is.
pub open spec fn read_ok(
    cfg: OAuthConfig,
    content: Option<String>,
    now: i64,
    post: AuthState,
    action: AuthAction,
) -> bool {
    match content {
        None => login_start_ok(cfg, post, action),
        Some(text) => match parse_credentials_text(text@) {
            None => login_start_ok(cfg, post, action),
            Some(cv) => {
                if cv.expiry_date is Some && now >= cv.expiry_date->Some_0
                    && cv.refresh_token is Some {
                    &&& post matches AuthState::AwaitRefresh { stale } && stale@ == cv
                    &&& action matches AuthAction::RefreshRequest { url, body } && url@
                        == token_endpoint_text() && body@ == refresh_body_text(
                        cv.refresh_token->Some_0,
                        cfg.client_id@,
                        cfg.client_secret@,
                    )
                } else {
                    finish_ok(cv.access_token, post, action)
                }
            },
        },
    }
}

/// What the refresh answer decides: any failure (network, status, malformed
/// body) falls back to the stale token; success persists the new record.
pub open spec fn refresh_ok(
    stale: Credentials,
    response: Option<(u16, String)>,
    now: i64,
    post: AuthState,
    action: AuthAction,
) -> bool {
    match response {
        None => finish_ok(stale@.access_token, post, action),
        Some((status, body)) => {
            if !(200 <= status < 300) {
                finish_ok(stale@.access_token, post, action)
            } else {
                match parse_token_response_text(body@) {
                    None => finish_ok(stale@.access_token, post, action),
                    Some(tp) => {
                        let cv = cred_from_token(tp, now, stale@.refresh_token, stale@.email);
                        &&& post matches AuthState::AwaitRefreshWrite { creds } && creds@ == cv
                        &&& action matches AuthAction::WriteStore { content } && content@
                            == spec_render_credentials(cv)
                    },
                }
            }
        },
    }
}

/// What the bound port decides: generate the attempt's secrets, build the
/// authorize URL around them, and open the browser.
pub open spec fn port_ok(
    cfg: OAuthConfig,
    port: Option<u16>,
    post: AuthState,
    action: AuthAction,
) -> bool {
    match port {
        None => failed_ok(AuthError::PortBindFailure, post, action),
        Some(p) => {
            &&& post matches AuthState::AwaitRedirect { attempt } && (action
                matches AuthAction::OpenBrowserAndListen { url, redacted_url } && ({
                &&& attempt.challenge@ == pkce_challenge_of(attempt.verifier@)
                &&& attempt.redirect_uri@ == redirect_uri_text(p)
                &&& url@ == authorize_url_text(
                    auth_endpoint_text(),
                    cfg.client_id@,
                    attempt.redirect_uri@,
                    cfg_scopes_text(cfg),
                    attempt.challenge@,
                    attempt.csrf@,
                )
                &&& redacted_url@ == redacted_authorize_url_text(
                    auth_endpoint_text(),
                    attempt.redirect_uri@,
                    cfg_scopes_text(cfg),
                )
            }))
        },
    }
}

/// What the redirect decides: with `code` and a matching `state` the code
/// is exchanged; a mismatched `state` is a CSRF failure before any
/// exchange; a missing `code` or `state` fails without an exchange; and the
/// listener's own failures carry their own errors.
pub open spec fn redirect_ok(
    cfg: OAuthConfig,
    attempt: LoginAttempt,
    outcome: RedirectOutcome,
    post: AuthState,
    action: AuthAction,
) -> bool {
    match outcome {
        RedirectOutcome::Line(line) => {
            let fail_missing = {
                &&& post matches AuthState::Failed { error } && error
                    == AuthError::MissingCodeOrState
                &&& action matches AuthAction::Fail { error: e2, respond } && e2
                    == AuthError::MissingCodeOrState && (respond matches Some(pg) && pg@
                    == http_ok_text(missing_page()))
            };
            match request_path(line@) {
                None => fail_missing,
                Some(path) => {
                    let q = query_of_path(path);
                    match (query_param(q, "code"@), query_param(q, "state"@)) {
                        (Some(code), Some(st)) => {
                            if st == attempt.csrf@ {
                                &&& post is AwaitExchange
                                &&& action matches AuthAction::ExchangeRequest {
                                    url,
                                    body,
                                    respond,
                                } && url@ == token_endpoint_text() && body@ == exchange_body_text(
                                    code,
                                    attempt.verifier@,
                                    attempt.redirect_uri@,
                                    cfg.client_id@,
                                    cfg.client_secret@,
                                ) && respond@ == http_ok_text(success_page())
                            } else {
                                &&& post matches AuthState::Failed { error } && error
                                    == AuthError::CsrfMismatch
                                &&& action matches AuthAction::Fail { error: e2, respond } && e2
                                    == AuthError::CsrfMismatch && (respond matches Some(pg) && pg@
                                    == http_ok_text(csrf_page()))
                            }
                        },
                        _ => fail_missing,
                    }
                },
            }
        },
        RedirectOutcome::Timeout => failed_ok(AuthError::AuthorizationTimeout, post, action),
        RedirectOutcome::LaunchFailed => failed_ok(AuthError::BrowserLaunchFailure, post, action),
        RedirectOutcome::ListenFailed => failed_ok(AuthError::IoError, post, action),
    }
}

/// What the exchange answer decides: any failure is terminal; success
/// persists the fresh record.
pub open spec fn exchange_ok(
    response: Option<(u16, String)>,
    now: i64,
    post: AuthState,
    action: AuthAction,
) -> bool {
    match response {
        None => failed_ok(AuthError::TokenEndpointError, post, action),
        Some((status, body)) => {
            if !(200 <= status < 300) {
                failed_ok(AuthError::TokenEndpointError, post, action)
            } else {
                match parse_token_response_text(body@) {
                    None => failed_ok(AuthError::TokenEndpointError, post, action),
                    Some(tp) => {
                        let cv = cred_from_token(tp, now, None, None);
                        &&& post matches AuthState::AwaitLoginWrite { creds } && creds@ == cv
                        &&& action matches AuthAction::WriteStore { content } && content@
                            == spec_render_credentials(cv)
                    },
                }
            }
        },
    }
}

/// What the user-info answer decides: an email is merged and persisted
/// best-effort; any failure still finishes with the fresh token.
pub open spec fn user_info_ok(
    creds: Credentials,
    email: Option<String>,
    post: AuthState,
    action: AuthAction,
) -> bool {
    match email {
        Some(em) => {
            let cv2 = CredView { email: Some(em@), ..creds@ };
            &&& post matches AuthState::AwaitEnrichWrite { token } && token@ == creds@.access_token
            &&& action matches AuthAction::WriteStore { content } && content@
                == spec_render_credentials(cv2)
        },
        None => finish_ok(creds@.access_token, post, action),
    }
}

/// Everything one transition guarantees. An event that does not belong to
/// the current state ends the attempt with an I/O error.
pub open spec fn step_ok(
    cfg: OAuthConfig,
    pre: AuthState,
    event: AuthEvent,
    post: AuthState,
    action: AuthAction,
) -> bool {
    match pre {
        AuthState::AwaitRead => match event {
            AuthEvent::ReadDone { content, now } => read_ok(cfg, content, now, post, action),
            _ => failed_ok(AuthError::IoError, post, action),
        },
        AuthState::AwaitRefresh { stale } => match event {
            AuthEvent::TokenDone { response, now } => refresh_ok(stale, response, now, post, action),
            _ => failed_ok(AuthError::IoError, post, action),
        },
        AuthState::AwaitRefreshWrite { creds } => match event {
            AuthEvent::WriteDone { ok } => if ok {
                finish_ok(creds@.access_token, post, action)
            } else {
                failed_ok(AuthError::IoError, post, action)
            },
            _ => failed_ok(AuthError::IoError, post, action),
        },
        AuthState::AwaitPort => match event {
            AuthEvent::PortDone { port } => port_ok(cfg, port, post, action),
            _ => failed_ok(AuthError::IoError, post, action),
        },
        AuthState::AwaitRedirect { attempt } => match event {
            AuthEvent::RedirectDone { outcome } => redirect_ok(
                cfg,
                attempt,
                outcome,
                post,
                action,
            ),
            _ => failed_ok(AuthError::IoError, post, action),
        },
        AuthState::AwaitExchange => match event {
            AuthEvent::TokenDone { response, now } => exchange_ok(response, now, post, action),
            _ => failed_ok(AuthError::IoError, post, action),
        },
        AuthState::AwaitLoginWrite { creds } => match event {
            AuthEvent::WriteDone { ok } => if ok {
                &&& post matches AuthState::AwaitUserInfo { creds: c2 } && c2@ == creds@
                &&& action matches AuthAction::FetchUserInfo { url, access_token } && url@
                    == userinfo_endpoint_text() && access_token@ == creds@.access_token
            } else {
                failed_ok(AuthError::IoError, post, action)
            },
            _ => failed_ok(AuthError::IoError, post, action),
        },
        AuthState::AwaitUserInfo { creds } => match event {
            AuthEvent::UserInfoDone { email } => user_info_ok(creds, email, post, action),
            _ => failed_ok(AuthError::IoError, post, action),
        },
        AuthState::AwaitEnrichWrite { token } => match event {
            AuthEvent::WriteDone { ok: _ } => finish_ok(token@, post, action),
            _ => failed_ok(AuthError::IoError, post, action),
        },
        AuthState::Done { token } => finish_ok(token@, post, action),
        AuthState::Failed { error } => {
            &&& post matches AuthState::Failed { error: e2 } && e2 == error
            &&& action matches AuthAction::Fail { error: e3, respond } && e3 == error && respond
                is None
        },
    }
}

// ---------------------------------------------------------------------------
// The step function
// ---------------------------------------------------------------------------
fn protocol_error() -> (r: (AuthState, AuthAction))
    ensures
        failed_ok(AuthError::IoError, r.0, r.1),
{
    (
        AuthState::Failed { error: AuthError::IoError },
        AuthAction::Fail { error: AuthError::IoError, respond: None },
    )
}

/// Run one transition of the machine.
#[verifier::rlimit(60)]
pub fn step(cfg: &OAuthConfig, state: AuthState, event: AuthEvent) -> (r: (AuthState, AuthAction))
    ensures
        step_ok(*cfg, state, event, r.0, r.1),
{
    match state {
        AuthState::AwaitRead => match event {
            AuthEvent::ReadDone { content, now } => step_read(cfg, content, now),
            _ => protocol_error(),
        },
        AuthState::AwaitRefresh { stale } => match event {
            AuthEvent::TokenDone { response, now } => step_refresh(stale, response, now),
            _ => protocol_error(),
        },
        AuthState::AwaitRefreshWrite { creds } => match event {
            AuthEvent::WriteDone { ok } => {
                if ok {
                    let token = creds.access_token;
                    (
                        AuthState::Done { token: token.clone() },
                        AuthAction::Finish { token },
                    )
                } else {
                    (
                        AuthState::Failed { error: AuthError::IoError },
                        AuthAction::Fail { error: AuthError::IoError, respond: None },
                    )
                }
            },
            _ => protocol_error(),
        },
        AuthState::AwaitPort => match event {
            AuthEvent::PortDone { port } => step_port(cfg, port),
            _ => protocol_error(),
        },
        AuthState::AwaitRedirect { attempt } => match event {
            AuthEvent::RedirectDone { outcome } => step_redirect(cfg, attempt, outcome),
            _ => protocol_error(),
        },
        AuthState::AwaitExchange => match event {
            AuthEvent::TokenDone { response, now } => step_exchange(response, now),
            _ => protocol_error(),
        },
        AuthState::AwaitLoginWrite { creds } => match event {
            AuthEvent::WriteDone { ok } => {
                if ok {
                    let token = creds.access_token.clone();
                    (
                        AuthState::AwaitUserInfo { creds },
                        AuthAction::FetchUserInfo { url: userinfo_endpoint(), access_token: token },
                    )
                } else {
                    (
                        AuthState::Failed { error: AuthError::IoError },
                        AuthAction::Fail { error: AuthError::IoError, respond: None },
                    )
                }
            },
            _ => protocol_error(),
        },
        AuthState::AwaitUserInfo { creds } => match event {
            AuthEvent::UserInfoDone { email } => step_user_info(creds, email),
            _ => protocol_error(),
        },
        AuthState::AwaitEnrichWrite { token } => match event {
            AuthEvent::WriteDone { ok: _ } => (
                AuthState::Done { token: token.clone() },
                AuthAction::Finish { token },
            ),
            _ => protocol_error(),
        },
        AuthState::Done { token } => (
            AuthState::Done { token: token.clone() },
            AuthAction::Finish { token },
        ),
        AuthState::Failed { error } => (
            AuthState::Failed { error },
            AuthAction::Fail { error, respond: None },
        ),
    }
}

fn step_login_start(cfg: &OAuthConfig) -> (r: (AuthState, AuthAction))
    ensures
        login_start_ok(*cfg, r.0, r.1),
{
    let uri = get_oauth_redirect_uri(cfg);
    let hint = port_of_uri_exec(uri.as_str());
    (AuthState::AwaitPort, AuthAction::BindPort { hint })
}

fn step_read(cfg: &OAuthConfig, content: Option<String>, now: i64) -> (r: (AuthState, AuthAction))
    ensures
        read_ok(*cfg, content, now, r.0, r.1),
{
    let text = match content {
        None => {
            return step_login_start(cfg);
        },
        Some(text) => text,
    };
    let creds = match parse_credentials(text.as_str()) {
        None => {
            return step_login_start(cfg);
        },
        Some(c) => c,
    };
    let expired = match &creds.expiry_date {
        Some(e) => now >= *e,
        None => false,
    };
    let has_refresh = creds.refresh_token.is_some();
    if expired && has_refresh {
        let rt = match &creds.refresh_token {
            Some(t) => t.clone(),
            None => String::new(),
        };
        let body = build_refresh_body(
            rt.as_str(),
            cfg.client_id.as_str(),
            cfg.client_secret.as_str(),
        );
        (
            AuthState::AwaitRefresh { stale: creds },
            AuthAction::RefreshRequest { url: token_endpoint(), body },
        )
    } else {
        let token = creds.access_token;
        (AuthState::Done { token: token.clone() }, AuthAction::Finish { token })
    }
}

fn step_refresh(stale: Credentials, response: Option<(u16, String)>, now: i64) -> (r: (
    AuthState,
    AuthAction,
))
    ensures
        refresh_ok(stale, response, now, r.0, r.1),
{
    let (status, body) = match response {
        None => {
            let token = stale.access_token;
            return (AuthState::Done { token: token.clone() }, AuthAction::Finish { token });
        },
        Some(sb) => sb,
    };
    if !(200 <= status && status < 300) {
        let token = stale.access_token;
        return (AuthState::Done { token: token.clone() }, AuthAction::Finish { token });
    }
    let tp = match parse_token_response(body.as_str()) {
        None => {
            let token = stale.access_token;
            return (AuthState::Done { token: token.clone() }, AuthAction::Finish { token });
        },
        Some(tp) => tp,
    };
    let creds = creds_from_payload(tp, now, stale.refresh_token, stale.user_info);
    let content = CredentialStore::encode(&creds);
    (AuthState::AwaitRefreshWrite { creds }, AuthAction::WriteStore { content })
}

fn step_port(cfg: &OAuthConfig, port: Option<u16>) -> (r: (AuthState, AuthAction))
    ensures
        port_ok(*cfg, port, r.0, r.1),
{
    let p = match port {
        None => {
            return (
                AuthState::Failed { error: AuthError::PortBindFailure },
                AuthAction::Fail { error: AuthError::PortBindFailure, respond: None },
            );
        },
        Some(p) => p,
    };
    let (verifier, challenge) = new_random_pkce();
    let csrf = new_random_csrf();
    let redirect_uri = build_redirect_uri(p);
    let scopes = scopes_param(cfg);
    let url = build_authorize_url(
        "https://accounts.google.com/o/oauth2/v2/auth",
        cfg.client_id.as_str(),
        redirect_uri.as_str(),
        scopes.as_str(),
        challenge.as_str(),
        csrf.as_str(),
    );
    let redacted_url = build_redacted_authorize_url(
        "https://accounts.google.com/o/oauth2/v2/auth",
        redirect_uri.as_str(),
        scopes.as_str(),
    );
    let attempt = LoginAttempt { verifier, challenge, csrf, redirect_uri };
    (
        AuthState::AwaitRedirect { attempt },
        AuthAction::OpenBrowserAndListen { url, redacted_url },
    )
}

fn fail_missing_code_or_state() -> (r: (AuthState, AuthAction))
    ensures
        r.0 matches AuthState::Failed { error } && error == AuthError::MissingCodeOrState,
        r.1 matches AuthAction::Fail { error: e2, respond } && e2 == AuthError::MissingCodeOrState
            && (respond matches Some(pg) && pg@ == http_ok_text(missing_page())),
{
    proof {
        reveal_strlit("No code or state found in redirect URL.");
    }
    let page = http_ok_response("No code or state found in redirect URL.");
    (
        AuthState::Failed { error: AuthError::MissingCodeOrState },
        AuthAction::Fail { error: AuthError::MissingCodeOrState, respond: Some(page) },
    )
}

#[verifier::rlimit(60)]
fn step_redirect(cfg: &OAuthConfig, attempt: LoginAttempt, outcome: RedirectOutcome) -> (r: (
    AuthState,
    AuthAction,
))
    ensures
        redirect_ok(*cfg, attempt, outcome, r.0, r.1),
{
    let line = match outcome {
        RedirectOutcome::Timeout => {
            return (
                AuthState::Failed { error: AuthError::AuthorizationTimeout },
                AuthAction::Fail { error: AuthError::AuthorizationTimeout, respond: None },
            );
        },
        RedirectOutcome::LaunchFailed => {
            return (
                AuthState::Failed { error: AuthError::BrowserLaunchFailure },
                AuthAction::Fail { error: AuthError::BrowserLaunchFailure, respond: None },
            );
        },
        RedirectOutcome::ListenFailed => {
            return (
                AuthState::Failed { error: AuthError::IoError },
                AuthAction::Fail { error: AuthError::IoError, respond: None },
            );
        },
        RedirectOutcome::Line(line) => line,
    };
    let path = match request_path_exec(line.as_str()) {
        None => {
            return fail_missing_code_or_state();
        },
        Some(p) => p,
    };
    let q = query_of_path_exec(path.as_str());
    let code = query_param_exec(q.as_str(), "code");
    let st = query_param_exec(q.as_str(), "state");
    let (code, st) = match (code, st) {
        (Some(c), Some(s)) => (c, s),
        _ => {
            return fail_missing_code_or_state();
        },
    };
    if st == attempt.csrf {
        proof {
            reveal_strlit("Authentication successful! You can close this tab.");
        }
        let respond = http_ok_response("Authentication successful! You can close this tab.");
        let body = build_exchange_body(
            code.as_str(),
            attempt.verifier.as_str(),
            attempt.redirect_uri.as_str(),
            cfg.client_id.as_str(),
            cfg.client_secret.as_str(),
        );
        (
            AuthState::AwaitExchange,
            AuthAction::ExchangeRequest { url: token_endpoint(), body, respond },
        )
    } else {
        proof {
            reveal_strlit("State mismatch. Possible CSRF attack.");
        }
        let page = http_ok_response("State mismatch. Possible CSRF attack.");
        (
            AuthState::Failed { error: AuthError::CsrfMismatch },
            AuthAction::Fail { error: AuthError::CsrfMismatch, respond: Some(page) },
        )
    }
}

fn step_exchange(response: Option<(u16, String)>, now: i64) -> (r: (AuthState, AuthAction))
    ensures
        exchange_ok(response, now, r.0, r.1),
{
    let fail = AuthError::TokenEndpointError;
    let (status, body) = match response {
        None => {
            return (
                AuthState::Failed { error: fail },
                AuthAction::Fail { error: fail, respond: None },
            );
        },
        Some(sb) => sb,
    };
    if !(200 <= status && status < 300) {
        return (
            AuthState::Failed { error: fail },
            AuthAction::Fail { error: fail, respond: None },
        );
    }
    let tp = match parse_token_response(body.as_str()) {
        None => {
            return (
                AuthState::Failed { error: fail },
                AuthAction::Fail { error: fail, respond: None },
            );
        },
        Some(tp) => tp,
    };
    let creds = creds_from_payload(tp, now, None, None);
    let content = CredentialStore::encode(&creds);
    (AuthState::AwaitLoginWrite { creds }, AuthAction::WriteStore { content })
}

fn step_user_info(creds: Credentials, email: Option<String>) -> (r: (AuthState, AuthAction))
    ensures
        user_info_ok(creds, email, r.0, r.1),
{
    match email {
        Some(em) => {
            let token = creds.access_token.clone();
            let enriched = Credentials {
                access_token: creds.access_token,
                refresh_token: creds.refresh_token,
                token_type: creds.token_type,
                expiry_date: creds.expiry_date,
                user_info: Some(UserInfo { email: em }),
            };
            let content = CredentialStore::encode(&enriched);
            (AuthState::AwaitEnrichWrite { token }, AuthAction::WriteStore { content })
        },
        None => {
            let token = creds.access_token;
            (AuthState::Done { token: token.clone() }, AuthAction::Finish { token })
        },
    }
}

} // verus!
