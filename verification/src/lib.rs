//! Biometric-gated token issuing for Akeyless: ES256 JWTs whose signatures come
//! from a key store, the daemon's line protocol, and the configuration defaults.

pub mod config;
pub mod encoding;
pub mod error;
pub mod handler;
pub mod jwt;
pub mod keystore;
pub mod protocol;
pub mod socket;
pub mod text;
pub mod traits;
