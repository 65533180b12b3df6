//! The authenticator capability: a static-key variant that always hands out
//! its configured key, and an OAuth variant whose `authenticate()` is the
//! state machine of [`crate::machine`].

use vstd::prelude::*;
use vstd::string::{StringExecFns, StrSliceExecFns};
use crate::credentials::CredentialStore;

verus! {

/// One identity's app registration, fixed for the life of an attempt.
#[derive(Clone)]
pub struct OAuthConfig {
    pub client_id: String,
    pub client_secret: String,
    pub redirect_uri: Option<String>,
    pub scopes: Option<Vec<String>>,
}

/// The loopback redirect URI used when the configuration names none.
pub open spec fn default_redirect_uri() -> Seq<char> {
    "http://localhost:37387/"@
}

/// The redirect URI an attempt starts from: the configured one, or the
/// default loopback URI.
pub open spec fn cfg_redirect_uri(cfg: OAuthConfig) -> Seq<char> {
    match cfg.redirect_uri {
        Some(u) => u@,
        None => default_redirect_uri(),
    }
}

/// The resolved redirect URI of a configuration.
pub fn get_oauth_redirect_uri(cfg: &OAuthConfig) -> (r: String)
    ensures
        r@ == cfg_redirect_uri(*cfg),
{
    match &cfg.redirect_uri {
        Some(u) => u.clone(),
        None => String::from_str("http://localhost:37387/"),
    }
}

/// The provider's authorize endpoint.
pub open spec fn auth_endpoint_text() -> Seq<char> {
    "https://accounts.google.com/o/oauth2/v2/auth"@
}

/// The provider's token endpoint.
pub open spec fn token_endpoint_text() -> Seq<char> {
    "https://oauth2.googleapis.com/token"@
}

/// The provider's userinfo endpoint.
pub open spec fn userinfo_endpoint_text() -> Seq<char> {
    "https://www.googleapis.com/oauth2/v2/userinfo"@
}

pub fn token_endpoint() -> (r: String)
    ensures
        r@ == token_endpoint_text(),
{
    String::from_str("https://oauth2.googleapis.com/token")
}

pub fn userinfo_endpoint() -> (r: String)
    ensures
        r@ == userinfo_endpoint_text(),
{
    String::from_str("https://www.googleapis.com/oauth2/v2/userinfo")
}

/// The scopes requested when the configuration names none.
pub open spec fn default_scopes() -> Seq<Seq<char>> {
    seq![
        "https://www.googleapis.com/auth/cloud-platform"@,
        "https://www.googleapis.com/auth/userinfo.email"@,
        "https://www.googleapis.com/auth/userinfo.profile"@,
    ]
}

/// The scope parameter of an attempt: the configured scopes, or the default
/// ones, joined by spaces.
pub open spec fn cfg_scopes_text(cfg: OAuthConfig) -> Seq<char> {
    match cfg.scopes {
        Some(ss) => crate::urlq::join_scopes(ss.deep_view()),
        None => crate::urlq::join_scopes(default_scopes()),
    }
}

/// Build the scope parameter of a configuration.
pub fn scopes_param(cfg: &OAuthConfig) -> (r: String)
    ensures
        r@ == cfg_scopes_text(*cfg),
{
    match &cfg.scopes {
        Some(ss) => crate::urlq::join_scopes_exec(ss),
        None => {
            let mut ds: Vec<String> = Vec::new();
            ds.push(String::from_str("https://www.googleapis.com/auth/cloud-platform"));
            ds.push(String::from_str("https://www.googleapis.com/auth/userinfo.email"));
            ds.push(String::from_str("https://www.googleapis.com/auth/userinfo.profile"));
            proof {
                assert(ds.deep_view() =~= default_scopes());
            }
            crate::urlq::join_scopes_exec(&ds)
        },
    }
}

/// The OAuth variant: configuration plus the store the record lives in.
pub struct OAuthAuthenticator {
    pub config: OAuthConfig,
    pub credential_store: CredentialStore,
}

impl OAuthAuthenticator {
    pub fn new(config: OAuthConfig, credential_store: CredentialStore) -> (r: Self)
        ensures
            r.config == config,
            r.credential_store == credential_store,
    {
        Self { config, credential_store }
    }
}

/// The static-key variant: `authenticate()` always succeeds with the key.
pub struct ApiKeyAuthenticator {
    pub api_key: String,
}

impl ApiKeyAuthenticator {
    pub fn new(api_key: String) -> (r: Self)
        ensures
            r.api_key == api_key,
    {
        Self { api_key }
    }

    /// The single operation of the capability: hand out a usable token.
    pub fn authenticate(&self) -> (r: Result<String, crate::machine::AuthError>)
        ensures
            r is Ok && r->Ok_0@ == self.api_key@,
    {
        Ok(self.api_key.clone())
    }
}

/// The authenticator capability: both variants expose one `authenticate`
/// operation, here as the start of the state machine (the static variant
/// finishes at once, the OAuth variant hands the caller its first action).
pub enum Authenticator {
    ApiKey(ApiKeyAuthenticator),
    OAuth(OAuthAuthenticator),
}

impl Authenticator {
    /// Begin one `authenticate()` call: the static variant is already done,
    /// the OAuth variant asks for the stored record first.
    pub fn begin(&self) -> (r: (crate::machine::AuthState, crate::machine::AuthAction))
        ensures
            match self {
                Authenticator::ApiKey(a) => ({
                    &&& r.0 matches crate::machine::AuthState::Done { token } && token@
                        == a.api_key@
                    &&& r.1 matches crate::machine::AuthAction::Finish { token: t } && t@
                        == a.api_key@
                }),
                Authenticator::OAuth(_) => r.0 is AwaitRead && r.1 is ReadStore,
            },
    {
        match self {
            Authenticator::ApiKey(a) => (
                crate::machine::AuthState::Done { token: a.api_key.clone() },
                crate::machine::AuthAction::Finish { token: a.api_key.clone() },
            ),
            Authenticator::OAuth(_) => (
                crate::machine::AuthState::AwaitRead,
                crate::machine::AuthAction::ReadStore,
            ),
        }
    }
}

} // verus!
