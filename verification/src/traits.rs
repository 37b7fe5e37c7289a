//! The seams of the library: where keys live, how tokens are issued, and how
//! a daemon request is answered. Each has an implementation in this crate
//! (or, for the macOS Keychain, in the application) and may have others.
//!
//! Each trait names, by a spec relation, which outcomes its operations may
//! have; an implementation defines the relation and its methods keep to it.
//! What a Touch ID prompt or a key store answers is not a function of the
//! arguments, so the relations admit any number of outcomes.

use vstd::prelude::*;

use crate::error::{err_view, result_view, Error, ErrorView};
use crate::jwt::Claims;
use crate::protocol::{AuthRequest, AuthResponse, Jwk, JwkText};

verus! {

/// Generates, stores, and signs with cryptographic keys.
///
/// Default: the biometric-protected macOS Keychain.
pub trait KeyStore: Send + Sync + std::fmt::Debug {
    /// Whether signing `data` with the key `label` may come out as `out`
    /// (a DER-encoded ECDSA signature, or an error).
    closed spec fn sign_outcome(&self, label: Seq<char>, data: Seq<u8>, out: Result<Seq<u8>, ErrorView>) -> bool {
        true
    }

    /// Whether exporting the public key of `label` may come out as `out`.
    closed spec fn public_key_outcome(&self, label: Seq<char>, out: Result<JwkText, ErrorView>) -> bool {
        true
    }

    /// Generate a new P-256 key pair with biometric protection.
    fn generate(&self, label: &str) -> Result<(), Error>;

    /// Check if a key with the given label exists.
    fn key_exists(&self, label: &str) -> Result<bool, Error>;

    /// Sign data using the key (triggers Touch ID); the signature is DER-encoded.
    fn sign(&self, label: &str, data: &[u8]) -> (res: Result<Vec<u8>, Error>)
        ensures
            self.sign_outcome(label@, data@, result_view(res)),
    ;

    /// Export the public key as a JWK.
    fn public_key_jwk(&self, label: &str) -> (res: Result<Jwk, Error>)
        ensures
            self.public_key_outcome(label@, result_view(res)),
    ;

    /// Delete a key.
    fn delete(&self, label: &str) -> Result<(), Error>;
}

/// Issues signed JWTs for Akeyless authentication.
pub trait TokenIssuer: Send + Sync + std::fmt::Debug {
    /// Whether issuing a token for `claims` may come out as `out`.
    closed spec fn issue_outcome(&self, claims: Claims, out: Result<Seq<char>, ErrorView>) -> bool {
        true
    }

    /// Whether exporting the key set may come out as `out`.
    closed spec fn jwks_outcome(&self, out: Result<Seq<char>, ErrorView>) -> bool {
        true
    }

    /// Issue a signed JWT. Triggers biometric authentication.
    fn issue(&self, claims: &Claims) -> (res: Result<String, Error>)
        ensures
            self.issue_outcome(*claims, result_view(res)),
    ;

    /// Export the JWKS containing the public key for Akeyless configuration.
    fn jwks(&self) -> (res: Result<String, Error>)
        ensures
            self.jwks_outcome(result_view(res)),
    ;
}

/// Handles incoming authentication requests over a transport.
pub trait RequestHandler: Send + Sync + std::fmt::Debug {
    /// Whether handling `req` may come out as `out`.
    closed spec fn handle_outcome(&self, req: AuthRequest, out: Result<AuthResponse, ErrorView>) -> bool {
        true
    }

    /// Handle a single authentication request.
    fn handle(&self, req: &AuthRequest) -> (res: Result<AuthResponse, Error>)
        ensures
            self.handle_outcome(*req, err_view(res)),
    ;
}

} // verus!
