//! The daemon's request handler: fills a request's claims from the configured
//! defaults, the clock and a fresh token ID, and has them signed.

use vstd::prelude::*;
use vstd::string::*;

use crate::error::{err_view, result_view, Error, ErrorView};
use crate::jwt::{is_three_segment_token, Claims, JwtTokenIssuer};
use crate::protocol::{AuthRequest, AuthResponse};
use crate::traits::{KeyStore, RequestHandler, TokenIssuer};

verus! {

/// The current time as a Unix timestamp in seconds (`chrono::Utc::now().timestamp()`).
///
/// Trusted: the result counts seconds since the Unix epoch, so it is not
/// negative. What time it is cannot be stated. The call panics when the
/// system clock reads earlier than 1970, which no argument can exclude.
#[verifier::external_body]
fn unix_now() -> (t: i64)
    ensures
        t >= 0,
{
    chrono::Utc::now().timestamp()
}

/// A lowercase hexadecimal digit.
pub open spec fn is_lower_hex(c: char) -> bool {
    ('0' <= c && c <= '9') || ('a' <= c && c <= 'f')
}

/// The hyphenated text of a version-4 UUID: `xxxxxxxx-xxxx-4xxx-Vxxx-xxxxxxxxxxxx`,
/// where the variant digit `V` is one of `8`, `9`, `a`, `b`.
pub open spec fn is_uuid_v4_text(s: Seq<char>) -> bool {
    &&& s.len() == 36
    &&& forall|i: int|
        0 <= i < 36 ==> (if i == 8 || i == 13 || i == 18 || i == 23 {
            s[i] == '-'
        } else {
            is_lower_hex(#[trigger] s[i])
        })
    &&& s[14] == '4'
    &&& (s[19] == '8' || s[19] == '9' || s[19] == 'a' || s[19] == 'b')
}

/// A fresh random token ID (`uuid::Uuid::new_v4().to_string()`).
///
/// Trusted: the text is the hyphenated lowercase form of a version-4 UUID, as
/// `Uuid`'s `Display` writes it. Which UUID comes out is random and not
/// stated. The call panics when the system's random source fails.
#[verifier::external_body]
fn fresh_token_id() -> (id: String)
    ensures
        is_uuid_v4_text(id@),
{
    uuid::Uuid::new_v4().to_string()
}

/// Default request handler that delegates to a `TokenIssuer`.
#[derive(Debug)]
pub struct DefaultHandler<T: TokenIssuer> {
    issuer: T,
    default_issuer_claim: String,
    default_subject: String,
    default_audience: String,
    default_expiry_secs: u64,
}

/// The signed offset that an expiry in seconds adds to the issue time: the
/// value of `secs as i64` (so expiries above `i64::MAX` wrap to negative offsets).
pub open spec fn expiry_offset(secs: u64) -> int {
    if secs <= i64::MAX as u64 {
        secs as int
    } else {
        secs - 0x1_0000_0000_0000_0000
    }
}

/// Whether issuing at `now` with this expiry leaves the range of `i64`.
pub open spec fn expiry_overflows(now: i64, secs: u64) -> bool {
    now + expiry_offset(secs) > i64::MAX || now + expiry_offset(secs) < i64::MIN
}

/// `secs as i64`, the offset an expiry adds to the issue time.
fn offset_of(secs: u64) -> (offset: i64)
    ensures
        offset == expiry_offset(secs),
{
    if secs <= 0x7fff_ffff_ffff_ffffu64 {
        secs as i64
    } else {
        ((secs - 0x8000_0000_0000_0000u64) as i64) - 0x7fff_ffff_ffff_ffffi64 - 1
    }
}

impl<T: TokenIssuer> DefaultHandler<T> {
    pub closed spec fn issuer(&self) -> T {
        self.issuer
    }

    pub closed spec fn issuer_claim(&self) -> Seq<char> {
        self.default_issuer_claim@
    }

    pub closed spec fn subject(&self) -> Seq<char> {
        self.default_subject@
    }

    pub closed spec fn audience(&self) -> Seq<char> {
        self.default_audience@
    }

    pub closed spec fn expiry_secs(&self) -> u64 {
        self.default_expiry_secs
    }

    /// The expiry a request gets: its own when positive, else the default.
    pub open spec fn effective_expiry(&self, req: AuthRequest) -> u64 {
        if req.expiry_secs > 0 {
            req.expiry_secs
        } else {
            self.expiry_secs()
        }
    }

    /// The claims issued for `req` at time `now` with token ID `jti`: empty
    /// subject and audience fall back to the defaults, the issuer is the
    /// configured one, and the token expires `effective_expiry` seconds after `now`.
    pub open spec fn claims_match(&self, req: AuthRequest, now: i64, jti: Seq<char>, c: Claims) -> bool {
        &&& c.sub@ == (if req.sub@.len() == 0 {
            self.subject()
        } else {
            req.sub@
        })
        &&& c.iss@ == self.issuer_claim()
        &&& c.aud@ == (if req.aud@.len() == 0 {
            self.audience()
        } else {
            req.aud@
        })
        &&& c.iat == now
        &&& c.exp == now + expiry_offset(self.effective_expiry(req))
        &&& c.jti@ == jti
    }

    pub fn new(
        issuer: T,
        default_issuer_claim: String,
        default_subject: String,
        default_audience: String,
        default_expiry_secs: u64,
    ) -> (h: Self)
        ensures
            h.issuer() == issuer,
            h.issuer_claim() == default_issuer_claim@,
            h.subject() == default_subject@,
            h.audience() == default_audience@,
            h.expiry_secs() == default_expiry_secs,
    {
        Self {
            issuer,
            default_issuer_claim,
            default_subject,
            default_audience,
            default_expiry_secs,
        }
    }

    fn expiry_of(&self, req: &AuthRequest) -> (secs: u64)
        ensures
            secs == self.effective_expiry(*req),
    {
        if req.expiry_secs > 0 {
            req.expiry_secs
        } else {
            self.default_expiry_secs
        }
    }

    /// The claims for `req`, issued at `now` with token ID `jti`.
    pub fn claims_for(&self, req: &AuthRequest, now: i64, jti: String) -> (c: Claims)
        requires
            !expiry_overflows(now, self.effective_expiry(*req)),
        ensures
            self.claims_match(*req, now, jti@, c),
    {
        let offset = offset_of(self.expiry_of(req));
        let exp = now + offset;
        Claims {
            sub: if req.sub.as_str().is_empty() {
                self.default_subject.clone()
            } else {
                req.sub.clone()
            },
            iss: self.default_issuer_claim.clone(),
            aud: if req.aud.as_str().is_empty() {
                self.default_audience.clone()
            } else {
                req.aud.clone()
            },
            iat: now,
            exp,
            jti,
        }
    }
}

/// The daemon's answer when the issuer answers `issued` for claims `c`: the
/// issuer's token, expiring at `c.exp`, or the issuer's error unchanged.
pub open spec fn response_from(c: Claims, issued: Result<Seq<char>, ErrorView>, out: Result<
    AuthResponse,
    ErrorView,
>) -> bool {
    match (issued, out) {
        (Ok(t), Ok(resp)) => resp.token@ == t && resp.expires_at == c.exp,
        (Err(e), Err(e2)) => e == e2,
        _ => false,
    }
}

/// The error for an expiry that leaves the range of timestamps.
pub open spec fn expiry_range_error() -> ErrorView {
    ErrorView::Config("token expiry out of range"@)
}

impl<T: TokenIssuer> DefaultHandler<T> {
    /// What handling `req` may come out as when the clock reads `now`: the
    /// range error when the expiry leaves `i64`; otherwise the issuer is asked
    /// for a token for the claims `claims_match` describes (with a fresh v4
    /// UUID as token ID), and its token or error is the answer.
    pub open spec fn handled_at(&self, req: AuthRequest, now: i64, out: Result<AuthResponse, ErrorView>) -> bool {
        &&& now >= 0
        &&& if expiry_overflows(now, self.effective_expiry(req)) {
            out == Err::<AuthResponse, ErrorView>(expiry_range_error())
        } else {
            exists|c: Claims, issued: Result<Seq<char>, ErrorView>|
                #![trigger self.issuer().issue_outcome(c, issued)]
                self.claims_match(req, now, c.jti@, c) && is_uuid_v4_text(c.jti@)
                    && self.issuer().issue_outcome(c, issued) && response_from(c, issued, out)
        }
    }
}

impl<T: TokenIssuer> RequestHandler for DefaultHandler<T> {
    open spec fn handle_outcome(&self, req: AuthRequest, out: Result<AuthResponse, ErrorView>) -> bool {
        exists|now: i64| #[trigger] self.handled_at(req, now, out)
    }

    fn handle(&self, req: &AuthRequest) -> (res: Result<AuthResponse, Error>) {
        let now = unix_now();
        let offset = offset_of(self.expiry_of(req));
        if (offset > 0 && now > i64::MAX - offset) || (offset < 0 && now < i64::MIN - offset) {
            let res = Err(Error::Config(String::from_str("token expiry out of range")));
            assert(self.handled_at(*req, now, err_view(res)));
            return res;
        }
        let jti = fresh_token_id();
        let claims = self.claims_for(req, now, jti);
        let issued = self.issuer.issue(&claims);
        let ghost issued_view = result_view(issued);
        let res = match issued {
            Ok(token) => Ok(AuthResponse { token, expires_at: claims.exp }),
            Err(e) => Err(e),
        };
        proof {
            assert(self.issuer().issue_outcome(claims, issued_view));
            assert(response_from(claims, issued_view, err_view(res)));
            assert(self.handled_at(*req, now, err_view(res)));
        }
        res
    }
}

/// With the JWT issuer, every token the handler answers with is a compact
/// token of three base64url segments, signed over claims that `claims_match`
/// describes for the request.
pub proof fn lemma_handler_tokens_are_compact<K: KeyStore>(
    h: DefaultHandler<JwtTokenIssuer<K>>,
    req: AuthRequest,
    resp: AuthResponse,
)
    requires
        h.handle_outcome(req, Ok(resp)),
    ensures
        is_three_segment_token(resp.token@),
{
    let now = choose|now: i64| #[trigger] h.handled_at(req, now, Ok(resp));
    assert(h.handled_at(req, now, Ok(resp)));
    let (c, issued) = choose|c: Claims, issued: Result<Seq<char>, ErrorView>|
        h.claims_match(req, now, c.jti@, c) && is_uuid_v4_text(c.jti@)
            && #[trigger] h.issuer().issue_outcome(c, issued) && response_from(c, issued, Ok(resp));
    assert(h.issuer().token_outcome(c, issued));
}

} // verus!
