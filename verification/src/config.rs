//! Configuration: key label and protection, daemon socket, and the default
//! claims of issued tokens.

use vstd::prelude::*;
use vstd::string::*;

verus! {

/// Key protection mode.
#[derive(Debug, Clone, Copy, PartialEq, Eq, Structural)]
pub enum KeyProtection {
    /// Biometric-protected Keychain (no Apple Developer Program required).
    /// Key stored in software Keychain, Touch ID required for signing.
    Biometric,
    /// Secure Enclave hardware key (requires Apple Developer Program code signing).
    /// Key never leaves hardware, Touch ID required for signing.
    SecureEnclave,
}

impl Default for KeyProtection {
    fn default() -> (p: Self)
        ensures
            p == KeyProtection::Biometric,
    {
        KeyProtection::Biometric
    }
}

/// Configuration for akeyless-auth.
#[derive(Debug, Clone)]
pub struct Config {
    /// Key label in the Keychain / Secure Enclave.
    pub key_label: String,
    /// Key protection mode.
    pub key_protection: KeyProtection,
    /// Unix socket path for the daemon.
    pub socket_path: String,
    /// JWT issuer claim.
    pub issuer: String,
    /// Default JWT expiry in seconds.
    pub expiry_secs: u64,
    /// Default subject claim.
    pub subject: String,
    /// Default audience claim (typically Akeyless access ID).
    pub audience: String,
    /// Whether to auto-start the daemon via launchd.
    pub autostart: bool,
}

/// `base` joined with the relative path `rel`: a separator is inserted
/// unless `base` is empty or already ends with one.
pub open spec fn path_join(base: Seq<char>, rel: Seq<char>) -> Seq<char> {
    if base.len() == 0 {
        rel
    } else if base.last() == '/' {
        base + rel
    } else {
        base + seq!['/'] + rel
    }
}

/// The socket path under a home directory (`/tmp` when there is none).
pub open spec fn socket_path_under(home: Option<Seq<char>>) -> Seq<char> {
    path_join(
        match home {
            Some(h) => h,
            None => "/tmp"@,
        },
        ".config/akeyless-auth/sock"@,
    )
}

/// The view of an optional text.
pub open spec fn option_view(o: Option<String>) -> Option<Seq<char>> {
    match o {
        Some(s) => Some(s@),
        None => None,
    }
}

pub fn default_key_label() -> (s: String)
    ensures
        s@ == "com.pleme.akeyless-auth"@,
{
    String::from_str("com.pleme.akeyless-auth")
}

/// `base` joined with the relative path `rel`.
fn joined(base: String, rel: &str) -> (s: String)
    ensures
        s@ == path_join(base@, rel@),
{
    let mut base = base;
    let empty = base.as_str().is_empty();
    if !empty {
        let last = base.as_str().get_char(base.as_str().unicode_len() - 1);
        if last != '/' {
            crate::text::push_char(&mut base, '/');
        }
    }
    base.append(rel);
    base
}

/// The daemon socket `~/.config/akeyless-auth/sock`, given the home directory.
pub fn default_socket_path(home: Option<String>) -> (s: String)
    ensures
        s@ == socket_path_under(option_view(home)),
{
    let base = match home {
        Some(h) => h,
        None => String::from_str("/tmp"),
    };
    joined(base, ".config/akeyless-auth/sock")
}

/// Where the configuration file is read from: the path given in
/// `AKEYLESS_AUTH_CONFIG` when it is set, else `akeyless-auth/config.json`
/// under the user's configuration directory (`/tmp` when there is none).
pub open spec fn config_path_for(
    override_path: Option<Seq<char>>,
    config_dir: Option<Seq<char>>,
) -> Seq<char> {
    match override_path {
        Some(p) => p,
        None => path_join(
            match config_dir {
                Some(d) => d,
                None => "/tmp"@,
            },
            "akeyless-auth/config.json"@,
        ),
    }
}

/// The configuration file's path, given the `AKEYLESS_AUTH_CONFIG` setting
/// and the configuration directory.
pub fn config_file_path(override_path: Option<String>, config_dir: Option<String>) -> (s: String)
    ensures
        s@ == config_path_for(option_view(override_path), option_view(config_dir)),
{
    match override_path {
        Some(p) => p,
        None => {
            let base = match config_dir {
                Some(d) => d,
                None => String::from_str("/tmp"),
            };
            joined(base, "akeyless-auth/config.json")
        },
    }
}

pub fn default_issuer() -> (s: String)
    ensures
        s@ == "akeyless-auth"@,
{
    String::from_str("akeyless-auth")
}

pub fn default_expiry_secs() -> (secs: u64)
    ensures
        secs == 60,
{
    60
}

/// The default subject: the user's login name, or `unknown` when there is none.
pub fn default_subject(user: Option<String>) -> (s: String)
    ensures
        s@ == match option_view(user) {
            Some(u) => u,
            None => "unknown"@,
        },
{
    match user {
        Some(u) => u,
        None => String::from_str("unknown"),
    }
}

pub fn default_autostart() -> (b: bool)
    ensures
        b,
{
    true
}

impl Config {
    /// The default configuration, given the home directory and the login name
    /// that the environment supplies (each `None` when it supplies none).
    pub fn defaults_for(home: Option<String>, user: Option<String>) -> (c: Config)
        ensures
            c.key_label@ == "com.pleme.akeyless-auth"@,
            c.key_protection == KeyProtection::Biometric,
            c.socket_path@ == socket_path_under(option_view(home)),
            c.issuer@ == "akeyless-auth"@,
            c.expiry_secs == 60,
            c.subject@ == match option_view(user) {
                Some(u) => u,
                None => "unknown"@,
            },
            c.audience@ == Seq::<char>::empty(),
            c.autostart,
    {
        Config {
            key_label: default_key_label(),
            key_protection: KeyProtection::default(),
            socket_path: default_socket_path(home),
            issuer: default_issuer(),
            expiry_secs: default_expiry_secs(),
            subject: default_subject(user),
            audience: String::new(),
            autostart: default_autostart(),
        }
    }
}

} // verus!
