//! Base64url (URL-safe alphabet, no padding) encoding, by the `base64` crate.

use base64::engine::general_purpose::URL_SAFE_NO_PAD;
use base64::Engine;
use vstd::prelude::*;

verus! {

/// The base64url encoding (RFC 4648 §5, without `=` padding) of a byte string,
/// as `URL_SAFE_NO_PAD.encode` computes it.
pub uninterp spec fn base64url(data: Seq<u8>) -> Seq<char>;

/// A character of the URL-safe base64 alphabet.
pub open spec fn is_base64url_char(c: char) -> bool {
    ('A' <= c && c <= 'Z') || ('a' <= c && c <= 'z') || ('0' <= c && c <= '9') || c == '-' || c
        == '_'
}

/// The length of the unpadded encoding of `n` bytes: four characters per
/// complete three-byte group, two or three for a trailing partial group.
pub open spec fn base64url_len(n: nat) -> nat {
    (n / 3) * 4 + if n % 3 == 0 {
        0
    } else {
        n % 3 + 1
    }
}

/// Encodes `data` with `base64::engine::general_purpose::URL_SAFE_NO_PAD`.
///
/// Trusted: the result is the engine's encoding of `data` (named by
/// [`base64url`]), drawn from the URL-safe alphabet, and of the documented
/// unpadded length. The engine panics when that length overflows `usize`,
/// so such inputs are excluded.
#[verifier::external_body]
pub(crate) fn base64url_encode(data: &[u8]) -> (s: String)
    requires
        base64url_len(data@.len()) <= usize::MAX,
    ensures
        s@ == base64url(data@),
        s@.len() == base64url_len(data@.len()),
        forall|i: int| 0 <= i < s@.len() ==> is_base64url_char(#[trigger] s@[i]),
{
    URL_SAFE_NO_PAD.encode(data)
}

/// The longest input that [`base64url_encode`] takes in every configuration.
pub const MAX_ENCODABLE: usize = usize::MAX / 4 * 3;

/// Inputs up to [`MAX_ENCODABLE`] bytes have an encoded length that fits in `usize`.
pub proof fn lemma_encodable(n: nat)
    requires
        n <= MAX_ENCODABLE,
    ensures
        base64url_len(n) <= usize::MAX,
{
    let q = n / 3;
    let m = usize::MAX as int;
    assert(m == 0xffff_ffff || m == 0xffff_ffff_ffff_ffff);
    assert(m % 4 == 3);
    assert(q <= m / 4) by (nonlinear_arith)
        requires
            n <= m / 4 * 3,
            q == n / 3,
            m > 0,
    ;
    assert(q * 4 <= m / 4 * 4) by (nonlinear_arith)
        requires
            q <= m / 4,
    ;
}

} // verus!
