//! The library's error type, its abstract view, and its display text.

use vstd::prelude::*;
use vstd::string::*;

verus! {

/// Errors of key storage, signing, token issuing and the daemon protocol.
///
/// Variants that carried a value of another library (an I/O error, a JSON
/// error, a JWT error, a path) carry that value's display text here.
#[derive(Debug)]
pub enum Error {
    KeyStore(String),
    Signing(String),
    KeyNotFound { label: String },
    Jwt(String),
    Socket(String),
    SocketInUse(String),
    Config(String),
    BiometricUnavailable,
    BiometricDenied,
    Serialization(String),
    Daemon(String),
}

/// The mathematical value of an [`Error`]: the same variant, with text as `Seq<char>`.
pub enum ErrorView {
    KeyStore(Seq<char>),
    Signing(Seq<char>),
    KeyNotFound { label: Seq<char> },
    Jwt(Seq<char>),
    Socket(Seq<char>),
    SocketInUse(Seq<char>),
    Config(Seq<char>),
    BiometricUnavailable,
    BiometricDenied,
    Serialization(Seq<char>),
    Daemon(Seq<char>),
}

impl View for Error {
    type V = ErrorView;

    open spec fn view(&self) -> ErrorView {
        match self {
            Error::KeyStore(m) => ErrorView::KeyStore(m@),
            Error::Signing(m) => ErrorView::Signing(m@),
            Error::KeyNotFound { label } => ErrorView::KeyNotFound { label: label@ },
            Error::Jwt(m) => ErrorView::Jwt(m@),
            Error::Socket(m) => ErrorView::Socket(m@),
            Error::SocketInUse(m) => ErrorView::SocketInUse(m@),
            Error::Config(m) => ErrorView::Config(m@),
            Error::BiometricUnavailable => ErrorView::BiometricUnavailable,
            Error::BiometricDenied => ErrorView::BiometricDenied,
            Error::Serialization(m) => ErrorView::Serialization(m@),
            Error::Daemon(m) => ErrorView::Daemon(m@),
        }
    }
}

/// The view of a result whose success value has a view.
pub open spec fn result_view<T: View>(r: Result<T, Error>) -> Result<T::V, ErrorView> {
    match r {
        Ok(v) => Ok(v@),
        Err(e) => Err(e@),
    }
}

/// A result with its error taken by its view.
pub open spec fn err_view<T>(r: Result<T, Error>) -> Result<T, ErrorView> {
    match r {
        Ok(v) => Ok(v),
        Err(e) => Err(e@),
    }
}

/// The text by which an error is displayed (and sent to daemon clients).
pub open spec fn error_text(e: ErrorView) -> Seq<char> {
    match e {
        ErrorView::KeyStore(m) => "keystore error: "@ + m,
        ErrorView::Signing(m) => "signing error: "@ + m,
        ErrorView::KeyNotFound { label } => "key not found: "@ + label,
        ErrorView::Jwt(m) => "JWT error: "@ + m,
        ErrorView::Socket(m) => "socket error: "@ + m,
        ErrorView::SocketInUse(m) => "socket path already in use: "@ + m,
        ErrorView::Config(m) => "config error: "@ + m,
        ErrorView::BiometricUnavailable => "biometric authentication required but not available"@,
        ErrorView::BiometricDenied => "biometric authentication denied by user"@,
        ErrorView::Serialization(m) => "serialization error: "@ + m,
        ErrorView::Daemon(m) => "daemon error: "@ + m,
    }
}

fn prefixed(prefix: &str, m: &String) -> (s: String)
    ensures
        s@ == prefix@ + m@,
{
    let mut s = String::from_str(prefix);
    s.append(m.as_str());
    s
}

impl Error {
    /// The display text of this error.
    pub fn message(&self) -> (s: String)
        ensures
            s@ == error_text(self@),
    {
        match self {
            Error::KeyStore(m) => prefixed("keystore error: ", m),
            Error::Signing(m) => prefixed("signing error: ", m),
            Error::KeyNotFound { label } => prefixed("key not found: ", label),
            Error::Jwt(m) => prefixed("JWT error: ", m),
            Error::Socket(m) => prefixed("socket error: ", m),
            Error::SocketInUse(m) => prefixed("socket path already in use: ", m),
            Error::Config(m) => prefixed("config error: ", m),
            Error::BiometricUnavailable => String::from_str(
                "biometric authentication required but not available",
            ),
            Error::BiometricDenied => String::from_str("biometric authentication denied by user"),
            Error::Serialization(m) => prefixed("serialization error: ", m),
            Error::Daemon(m) => prefixed("daemon error: ", m),
        }
    }
}

} // verus!
