//! The two pieces of the login flow that come from the `oauth2` crate:
//! fresh PKCE material and a fresh CSRF token. Both are random, so their
//! contracts state only what holds of every outcome; the challenge is a
//! pure function of the verifier and gets a name.

use vstd::prelude::*;

verus! {

/// The PKCE challenge of a verifier: the base64url form of its SHA-256
/// digest, named rather than spelled out.
pub uninterp spec fn pkce_challenge_of(verifier: Seq<char>) -> Seq<char>;

/// Relies on `oauth2::PkceCodeChallenge::new_random_sha256`: a fresh
/// 32-byte random verifier, encoded as 43 base64url characters, together
/// with the challenge computed from that verifier by
/// `from_code_verifier_sha256`.
#[verifier::external_body]
pub fn new_random_pkce() -> (r: (String, String))
    ensures
        r.1@ == pkce_challenge_of(r.0@),
        r.0@.len() == 43,
{
    let (challenge, verifier) = oauth2::PkceCodeChallenge::new_random_sha256();
    (verifier.secret().to_string(), challenge.as_str().to_string())
}

/// Relies on `oauth2::CsrfToken::new_random`: a fresh random 128-bit token,
/// encoded as 22 base64url characters.
#[verifier::external_body]
pub fn new_random_csrf() -> (r: String)
    ensures
        r@.len() == 22,
{
    oauth2::CsrfToken::new_random().secret().to_string()
}

/// Relies on `oauth2::PkceCodeChallenge::from_code_verifier_sha256`: the
/// challenge depends on the verifier's bytes alone. The callee panics on a
/// verifier outside 43..=128 bytes, so those are kept out.
#[verifier::external_body]
pub fn pkce_challenge(verifier: &str) -> (r: String)
    requires
        43 <= verifier@.len() <= 128,
        verifier.is_ascii(),
    ensures
        r@ == pkce_challenge_of(verifier@),
{
    let v = oauth2::PkceCodeVerifier::new(verifier.to_string());
    oauth2::PkceCodeChallenge::from_code_verifier_sha256(&v).as_str().to_string()
}

} // verus!
