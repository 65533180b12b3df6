//! Verified core of an LLM command-line client's authentication subsystem.
//!
//! The heart of the crate is the OAuth2 authorization-code-with-PKCE flow:
//! a credential record with a JSON codec proved to round-trip, the pure
//! parsing and URL-building steps of the web login flow, and the
//! `authenticate()` state machine whose refresh and CSRF policies are
//! stated as contracts and proved as lemmas. I/O (files, sockets, the
//! browser) lives outside the library and drives the state machine.

pub mod authenticator;
pub mod chars;
pub mod cli;
pub mod client_secret;
pub mod json;
pub mod urlq;
pub mod config_types;
pub mod credentials;
pub mod credentials_laws;
pub mod machine;
pub mod machine_laws;
pub mod oauth_external;
pub mod scopes;
pub mod token_response;
