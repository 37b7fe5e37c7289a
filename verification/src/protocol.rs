//! The data exchanged with Akeyless and between client and daemon: JSON Web
//! Keys, the daemon's request and reply, and their JSON texts.

use vstd::prelude::*;
use vstd::string::*;

use crate::text::{json_string, push_decimal, push_json_string, push_signed_decimal, decimal, signed_decimal};

verus! {

/// A JSON Web Key (P-256 EC public key).
#[derive(Debug, Clone)]
pub struct Jwk {
    /// Key type, `"EC"`.
    pub kty: String,
    /// Curve, `"P-256"`.
    pub crv: String,
    /// Base64url-encoded x coordinate.
    pub x: String,
    /// Base64url-encoded y coordinate.
    pub y: String,
    /// Key ID (the key's label).
    pub kid: String,
    /// Key use, `"sig"` (the member `use` in JSON).
    pub key_use: String,
    /// Algorithm, `"ES256"`.
    pub alg: String,
}

/// The members of a [`Jwk`] as texts.
pub struct JwkText {
    pub kty: Seq<char>,
    pub crv: Seq<char>,
    pub x: Seq<char>,
    pub y: Seq<char>,
    pub kid: Seq<char>,
    pub key_use: Seq<char>,
    pub alg: Seq<char>,
}

impl View for Jwk {
    type V = JwkText;

    open spec fn view(&self) -> JwkText {
        JwkText {
            kty: self.kty@,
            crv: self.crv@,
            x: self.x@,
            y: self.y@,
            kid: self.kid@,
            key_use: self.key_use@,
            alg: self.alg@,
        }
    }
}

/// A JSON Web Key Set.
#[derive(Debug, Clone)]
pub struct Jwks {
    pub keys: Vec<Jwk>,
}

/// Request from a client to the auth daemon.
#[derive(Debug, Clone)]
pub struct AuthRequest {
    /// Subject claim for the JWT (e.g., username or machine ID).
    pub sub: String,
    /// Audience claim (Akeyless access ID or URL).
    pub aud: String,
    /// JWT expiry in seconds from now.
    pub expiry_secs: u64,
}

/// Response from the auth daemon.
#[derive(Debug, Clone)]
pub struct AuthResponse {
    /// The signed JWT (ES256).
    pub token: String,
    /// When the token expires (Unix timestamp).
    pub expires_at: i64,
}

/// Error reply from the auth daemon.
#[derive(Debug, Clone)]
pub struct ErrorResponse {
    pub error: String,
}

/// A reply of the auth daemon: a token or an error.
#[derive(Debug, Clone)]
pub enum DaemonResponse {
    Token(AuthResponse),
    Failure(ErrorResponse),
}

/// The expiry that a request without `expiry_secs` asks for.
pub fn default_expiry() -> (secs: u64)
    ensures
        secs == 60,
{
    60
}

// ── JSON texts ─────────────────────────────────────────────────────────

/// A key, given by its member texts, as the pretty printer writes it inside
/// the key set (object at depth two).
pub open spec fn jwk_pretty_text(k: JwkText) -> Seq<char> {
    "{\n      \"kty\": "@ + json_string(k.kty) + ",\n      \"crv\": "@ + json_string(k.crv)
        + ",\n      \"x\": "@ + json_string(k.x) + ",\n      \"y\": "@ + json_string(k.y)
        + ",\n      \"kid\": "@ + json_string(k.kid) + ",\n      \"use\": "@ + json_string(k.key_use)
        + ",\n      \"alg\": "@ + json_string(k.alg) + "\n    }"@
}

/// A key as the pretty printer writes it inside the key set.
pub open spec fn jwk_pretty(j: Jwk) -> Seq<char> {
    jwk_pretty_text(j@)
}

/// A key set that holds exactly the key `k`, as pretty-printed JSON.
pub open spec fn single_key_set_text(k: JwkText) -> Seq<char> {
    "{\n  \"keys\": ["@ + ("\n    "@ + jwk_pretty_text(k)) + "\n  ]\n}"@
}

/// The text of a one-key set depends only on the key's member texts.
pub proof fn lemma_single_key_set(j: Jwk)
    ensures
        jwks_text(seq![j]) == single_key_set_text(j@),
{
    let keys = seq![j];
    assert(keys.drop_last() =~= Seq::<Jwk>::empty());
    assert(jwk_items(keys.drop_last()) =~= Seq::<char>::empty());
    assert(keys.last() == j);
    assert(jwk_items(keys) =~= "\n    "@ + jwk_pretty_text(j@));
}

/// The elements of the pretty-printed `keys` array, each on its own lines.
pub open spec fn jwk_items(keys: Seq<Jwk>) -> Seq<char>
    decreases keys.len(),
{
    if keys.len() == 0 {
        seq![]
    } else {
        jwk_items(keys.drop_last()) + (if keys.len() == 1 {
            "\n    "@
        } else {
            ",\n    "@
        }) + jwk_pretty(keys.last())
    }
}

/// A key set as pretty-printed JSON (two-space indentation, no final newline).
pub open spec fn jwks_text(keys: Seq<Jwk>) -> Seq<char> {
    if keys.len() == 0 {
        "{\n  \"keys\": []\n}"@
    } else {
        "{\n  \"keys\": ["@ + jwk_items(keys) + "\n  ]\n}"@
    }
}

/// A request as compact JSON.
pub open spec fn auth_request_text(r: AuthRequest) -> Seq<char> {
    "{\"sub\":"@ + json_string(r.sub@) + ",\"aud\":"@ + json_string(r.aud@) + ",\"expiry_secs\":"@
        + decimal(r.expiry_secs as nat) + "}"@
}

/// A token reply as compact JSON.
pub open spec fn auth_response_text(r: AuthResponse) -> Seq<char> {
    "{\"token\":"@ + json_string(r.token@) + ",\"expires_at\":"@ + signed_decimal(
        r.expires_at as int,
    ) + "}"@
}

/// An error reply as compact JSON.
pub open spec fn error_response_text(e: ErrorResponse) -> Seq<char> {
    "{\"error\":"@ + json_string(e.error@) + "}"@
}

fn push_jwk_pretty(out: &mut String, j: &Jwk)
    ensures
        final(out)@ == old(out)@ + jwk_pretty(*j),
{
    let ghost start = out@;
    out.append("{\n      \"kty\": ");
    push_json_string(out, j.kty.as_str());
    out.append(",\n      \"crv\": ");
    push_json_string(out, j.crv.as_str());
    out.append(",\n      \"x\": ");
    push_json_string(out, j.x.as_str());
    out.append(",\n      \"y\": ");
    push_json_string(out, j.y.as_str());
    out.append(",\n      \"kid\": ");
    push_json_string(out, j.kid.as_str());
    out.append(",\n      \"use\": ");
    push_json_string(out, j.key_use.as_str());
    out.append(",\n      \"alg\": ");
    push_json_string(out, j.alg.as_str());
    out.append("\n    }");
    assert(out@ =~= start + jwk_pretty(*j));
}

impl Jwks {
    /// The key set as pretty-printed JSON, as it is registered with Akeyless.
    pub fn to_json_pretty(&self) -> (s: String)
        ensures
            s@ == jwks_text(self.keys@),
    {
        if self.keys.len() == 0 {
            return String::from_str("{\n  \"keys\": []\n}");
        }
        let mut out = String::from_str("{\n  \"keys\": [");
        let mut i: usize = 0;
        while i < self.keys.len()
            invariant
                i <= self.keys@.len(),
                self.keys@.len() > 0,
                out@ == "{\n  \"keys\": ["@ + jwk_items(self.keys@.take(i as int)),
            decreases self.keys@.len() - i,
        {
            let ghost before = out@;
            if i == 0 {
                out.append("\n    ");
            } else {
                out.append(",\n    ");
            }
            push_jwk_pretty(&mut out, &self.keys[i]);
            i = i + 1;
            proof {
                let t = self.keys@.take(i as int);
                assert(t.drop_last() =~= self.keys@.take(i - 1));
                assert(t.last() == self.keys@[i - 1]);
                assert(out@ =~= "{\n  \"keys\": ["@ + jwk_items(t));
            }
        }
        out.append("\n  ]\n}");
        assert(self.keys@.take(self.keys@.len() as int) =~= self.keys@);
        out
    }
}

impl AuthRequest {
    /// The request as one line of compact JSON.
    pub fn to_json(&self) -> (s: String)
        ensures
            s@ == auth_request_text(*self),
    {
        let mut out = String::from_str("{\"sub\":");
        push_json_string(&mut out, self.sub.as_str());
        out.append(",\"aud\":");
        push_json_string(&mut out, self.aud.as_str());
        out.append(",\"expiry_secs\":");
        push_decimal(&mut out, self.expiry_secs);
        out.append("}");
        out
    }
}

impl AuthResponse {
    /// The reply as one line of compact JSON.
    pub fn to_json(&self) -> (s: String)
        ensures
            s@ == auth_response_text(*self),
    {
        let mut out = String::from_str("{\"token\":");
        push_json_string(&mut out, self.token.as_str());
        out.append(",\"expires_at\":");
        push_signed_decimal(&mut out, self.expires_at);
        out.append("}");
        out
    }
}

impl ErrorResponse {
    /// The reply as one line of compact JSON.
    pub fn to_json(&self) -> (s: String)
        ensures
            s@ == error_response_text(*self),
    {
        let mut out = String::from_str("{\"error\":");
        push_json_string(&mut out, self.error.as_str());
        out.append("}");
        out
    }
}

} // verus!
