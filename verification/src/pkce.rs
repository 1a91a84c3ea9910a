//! PKCE material for one authorization flow: a random verifier, the S256
//! challenge derived from it, and an independent random CSRF state token.
//! Generation calls into the oauth2 crate; the challenge transform is named
//! by an uninterpreted function so that contracts downstream can tie the
//! challenge sent to the provider to the verifier sent at exchange time.

use vstd::prelude::*;

verus! {

/// The PKCE S256 transform: URL-safe, unpadded base64 of the SHA-256 digest
/// of the verifier's bytes. A function of the verifier alone; left without a
/// definition, since nothing here recomputes digests — the provider does.
pub uninterp spec fn challenge_of(verifier: Seq<char>) -> Seq<char>;

/// Fresh secrets for one authorization flow.
pub struct PkceMaterial {
    /// Sent to the provider in the authorization URL.
    pub challenge: String,
    /// Kept server-side; sent only in the token-exchange request.
    pub verifier: String,
    /// Independent random token keying the flow.
    pub csrf_state: String,
}

/// Relies on oauth2's `PkceCodeChallenge::new_random_sha256`: it draws 32
/// bytes from a cryptographically secure source and URL-safe base64-encodes
/// them into a 43-character verifier, then derives the challenge from the
/// verifier alone by the S256 transform (43 characters as well). Returns
/// `(verifier, challenge)`.
#[verifier::external_body]
fn new_random_sha256_pair() -> (r: (String, String))
    ensures
        r.1@ == challenge_of(r.0@),
        r.0@.len() == 43,
        r.1@.len() == 43,
{
    let (challenge, verifier) = oauth2::PkceCodeChallenge::new_random_sha256();
    (verifier.secret().to_owned(), challenge.as_str().to_owned())
}

/// Relies on oauth2's `CsrfToken::new_random`: 16 bytes from a
/// cryptographically secure source, URL-safe base64-encoded into a
/// 22-character token.
#[verifier::external_body]
fn new_random_csrf_token() -> (r: String)
    ensures
        r@.len() == 22,
{
    oauth2::CsrfToken::new_random().secret().to_owned()
}

/// Produces a verifier/challenge pair and an independent CSRF token for one
/// new flow. Pure generation, no side effects: the challenge is the S256
/// transform of the verifier, and both random values carry at least 128 bits
/// of entropy from a cryptographically secure source.
pub fn generate() -> (r: PkceMaterial)
    ensures
        r.challenge@ == challenge_of(r.verifier@),
        r.verifier@.len() == 43,
        r.challenge@.len() == 43,
        r.csrf_state@.len() == 22,
{
    let (verifier, challenge) = new_random_sha256_pair();
    let csrf_state = new_random_csrf_token();
    PkceMaterial { challenge, verifier, csrf_state }
}

} // verus!
