//! ES256 JSON Web Tokens: the DER-to-JWS signature conversion, the header and
//! claims documents, and the issuer that signs them with a key store.

use vstd::prelude::*;
use vstd::seq_lib::lemma_concat_associative;
use vstd::string::*;

use crate::encoding::{base64url, base64url_encode, is_base64url_char, lemma_encodable, MAX_ENCODABLE};
use crate::error::{result_view, Error, ErrorView};
use crate::protocol::{lemma_single_key_set, single_key_set_text, Jwk, JwkText, Jwks};
use crate::text::{
    decimal, hex_char, json_member, json_members, json_object, json_string, lemma_json_members_cons,
    lemma_json_string_plain,
    lemma_json_string_unique, lemma_signed_decimal_unique, lemma_strip_prefix,
    push_char, push_decimal, push_json_string, push_signed_decimal, signed_decimal,
};
use crate::traits::{KeyStore, TokenIssuer};

verus! {

// ── DER → JWS signature conversion ─────────────────────────────────────

/// Drops one leading zero byte, unless it is the only byte.
pub open spec fn trimmed(b: Seq<u8>) -> Seq<u8> {
    if b.len() > 1 && b[0] == 0 {
        b.drop_first()
    } else {
        b
    }
}

/// Left-pads a byte string with zeros to 32 bytes.
pub open spec fn pad32(b: Seq<u8>) -> Seq<u8>
    recommends
        b.len() <= 32,
{
    Seq::new((32 - b.len()) as nat, |i: int| 0u8) + b
}

/// Two lowercase hexadecimal digits of a byte.
pub open spec fn hex_byte(b: u8) -> Seq<char> {
    seq![hex_char((b / 16) as int), hex_char((b % 16) as int)]
}

/// The `R` integer's bytes as the DER encoding gives them (length at index 3).
pub open spec fn der_r(der: Seq<u8>) -> Seq<u8> {
    der.subrange(4, 4 + der[3] as int)
}

/// Index of the `S` integer's tag byte.
pub open spec fn der_s_tag(der: Seq<u8>) -> int {
    4 + der[3] as int
}

/// The `S` integer's bytes as the DER encoding gives them.
pub open spec fn der_s(der: Seq<u8>) -> Seq<u8> {
    let start = der_s_tag(der) + 2;
    der.subrange(start, start + der[der_s_tag(der) + 1] as int)
}

/// The result of converting a DER-encoded ECDSA signature
/// (`0x30 len 0x02 r_len r 0x02 s_len s`) to the JWS form `R || S`,
/// each integer without its sign byte and left-padded to 32 bytes;
/// on malformed input, the signing error that names the defect.
pub open spec fn der_to_jws_result(der: Seq<u8>) -> Result<Seq<u8>, ErrorView> {
    let n = der.len();
    if n < 8 {
        Err(ErrorView::Signing("DER signature too short: "@ + decimal(n) + " bytes"@))
    } else if der[0] != 0x30 {
        Err(ErrorView::Signing("expected DER SEQUENCE (0x30), got 0x"@ + hex_byte(der[0])))
    } else if der[2] != 0x02 {
        Err(ErrorView::Signing("expected INTEGER tag (0x02) for R"@))
    } else if 4 + der[3] > n {
        Err(
            ErrorView::Signing(
                "truncated DER: R length "@ + decimal(der[3] as nat) + " exceeds buffer (pos=4, total="@
                    + decimal(n) + ")"@,
            ),
        )
    } else if der_s_tag(der) >= n || der[der_s_tag(der)] != 0x02 {
        Err(ErrorView::Signing("expected INTEGER tag (0x02) for S"@))
    } else if der_s_tag(der) + 1 >= n {
        Err(ErrorView::Signing("truncated DER: missing S length"@))
    } else if der_s_tag(der) + 2 + der[der_s_tag(der) + 1] > n {
        Err(
            ErrorView::Signing(
                "truncated DER: S length "@ + decimal(der[der_s_tag(der) + 1] as nat) + " exceeds buffer (pos="@
                    + decimal((der_s_tag(der) + 2) as nat) + ", total="@ + decimal(n) + ")"@,
            ),
        )
    } else if trimmed(der_r(der)).len() > 32 || trimmed(der_s(der)).len() > 32 {
        Err(
            ErrorView::Signing(
                "integer too large for P-256: R="@ + decimal(trimmed(der_r(der)).len())
                    + " bytes, S="@ + decimal(trimmed(der_s(der)).len()) + " bytes"@,
            ),
        )
    } else {
        Ok(pad32(trimmed(der_r(der))) + pad32(trimmed(der_s(der))))
    }
}

/// A DER `SEQUENCE` of the two `INTEGER`s `r` and `s`, as ECDSA signers emit it.
pub open spec fn der_signature(r: Seq<u8>, s: Seq<u8>) -> Seq<u8> {
    seq![0x30u8, (4 + r.len() + s.len()) as u8, 0x02u8, r.len() as u8] + r + seq![
        0x02u8,
        s.len() as u8,
    ] + s
}

/// A signature whose integers have at most 32 significant bytes (after the
/// optional sign byte) converts to their left-padded concatenation `R || S`.
pub proof fn lemma_der_signature_converts(r: Seq<u8>, s: Seq<u8>)
    requires
        1 <= r.len(),
        1 <= s.len(),
        trimmed(r).len() <= 32,
        trimmed(s).len() <= 32,
    ensures
        der_to_jws_result(der_signature(r, s)) == Ok::<Seq<u8>, ErrorView>(
            pad32(trimmed(r)) + pad32(trimmed(s)),
        ),
{
    let der = der_signature(r, s);
    assert(der[3] == r.len());
    assert(der_r(der) =~= r);
    assert(der[der_s_tag(der)] == 0x02);
    assert(der[der_s_tag(der) + 1] == s.len());
    assert(der_s(der) =~= s);
}

/// A successful conversion always yields exactly 64 bytes.
pub proof fn lemma_jws_signature_length(der: Seq<u8>)
    ensures
        der_to_jws_result(der) matches Ok(jws) ==> jws.len() == 64,
{
}

// ── The conversion in terms of integers ────────────────────────────────

/// The unsigned big-endian value of a byte string (zero for the empty string).
pub open spec fn be_value(b: Seq<u8>) -> nat
    decreases b.len(),
{
    if b.len() == 0 {
        0
    } else {
        (be_value(b.drop_last()) * 256 + b.last()) as nat
    }
}

/// `256` raised to the power `k`.
pub open spec fn pow256(k: nat) -> nat
    decreases k,
{
    if k == 0 {
        1
    } else {
        256 * pow256((k - 1) as nat)
    }
}

/// The shortest big-endian bytes of `n`: no leading zero byte, and `[0]` for zero.
pub open spec fn be_min(n: nat) -> Seq<u8>
    decreases n,
{
    if n < 256 {
        seq![n as u8]
    } else {
        be_min(n / 256).push((n % 256) as u8)
    }
}

/// The contents of a DER `INTEGER` holding the natural number `n`: its shortest
/// two's-complement big-endian form, that is its shortest unsigned bytes with a
/// zero sign byte in front exactly when their top bit is set.
pub open spec fn der_integer(n: nat) -> Seq<u8> {
    if be_min(n)[0] >= 0x80 {
        seq![0u8] + be_min(n)
    } else {
        be_min(n)
    }
}

/// `n` written as exactly `k` big-endian bytes (its `k` lowest bytes).
pub open spec fn be_fixed(n: nat, k: nat) -> Seq<u8>
    decreases k,
{
    if k == 0 {
        Seq::empty()
    } else {
        be_fixed(n / 256, (k - 1) as nat).push((n % 256) as u8)
    }
}

proof fn lemma_leading_zero_value(r: Seq<u8>)
    ensures
        be_value(seq![0u8] + r) == be_value(r),
    decreases r.len(),
{
    let z = seq![0u8] + r;
    if r.len() == 0 {
        assert(z.drop_last() =~= Seq::<u8>::empty());
        assert(be_value(z.drop_last()) == 0);
        assert(z.last() == 0);
    } else {
        assert(z.drop_last() =~= seq![0u8] + r.drop_last());
        assert(z.last() == r.last());
        lemma_leading_zero_value(r.drop_last());
    }
}

/// Dropping the sign byte keeps the integer: the result is a suffix of the input
/// that is at most one byte shorter and has the same big-endian value; it is empty
/// only for the empty input, and it is shorter exactly when an input of two or more
/// bytes starts with a zero byte.
pub proof fn lemma_trimmed_keeps_value(b: Seq<u8>)
    ensures
        trimmed(b).len() <= b.len() <= trimmed(b).len() + 1,
        trimmed(b) == b.subrange(b.len() - trimmed(b).len(), b.len() as int),
        be_value(trimmed(b)) == be_value(b),
        trimmed(b).len() == 0 <==> b.len() == 0,
        trimmed(b).len() < b.len() <==> (b.len() > 1 && b[0] == 0),
{
    if b.len() > 1 && b[0] == 0 {
        assert(b =~= seq![0u8] + b.drop_first());
        lemma_leading_zero_value(b.drop_first());
        assert(trimmed(b) =~= b.subrange(1, b.len() as int));
    } else {
        assert(trimmed(b) =~= b.subrange(0, b.len() as int));
    }
}

proof fn lemma_be_min_shape(n: nat)
    ensures
        be_min(n).len() >= 1,
        n < 256 ==> be_min(n).len() == 1,
        n >= 256 ==> be_min(n)[0] != 0,
    decreases n,
{
    if n >= 256 {
        lemma_be_min_shape(n / 256);
        assert(be_min(n)[0] == be_min(n / 256)[0]);
    }
}

proof fn lemma_be_min_fits(n: nat, k: nat)
    requires
        1 <= k,
        n < pow256(k),
    ensures
        be_min(n).len() <= k,
    decreases n,
{
    if n >= 256 {
        assert(k >= 2) by {
            if k == 1 {
                assert(pow256(1) == 256 * pow256(0));
            }
        }
        assert(pow256(k) == 256 * pow256((k - 1) as nat));
        assert(n / 256 < pow256((k - 1) as nat));
        lemma_be_min_fits(n / 256, (k - 1) as nat);
    }
}

proof fn lemma_be_fixed_zero(k: nat)
    ensures
        be_fixed(0, k) == Seq::new(k, |i: int| 0u8),
    decreases k,
{
    if k > 0 {
        lemma_be_fixed_zero((k - 1) as nat);
        assert(be_fixed(0, k) =~= Seq::new(k, |i: int| 0u8));
    }
}

proof fn lemma_be_fixed_pads(n: nat, k: nat)
    requires
        be_min(n).len() <= k,
    ensures
        be_fixed(n, k) == Seq::new((k - be_min(n).len()) as nat, |i: int| 0u8) + be_min(n),
    decreases k,
{
    lemma_be_min_shape(n);
    let m = be_min(n);
    if n < 256 {
        lemma_be_fixed_zero((k - 1) as nat);
        assert(be_fixed(n, k) =~= Seq::new((k - m.len()) as nat, |i: int| 0u8) + m);
    } else {
        lemma_be_fixed_pads(n / 256, (k - 1) as nat);
        assert(be_fixed(n, k) =~= Seq::new((k - m.len()) as nat, |i: int| 0u8) + m);
    }
}

/// `be_fixed` is a faithful encoding: `k` bytes whose big-endian value is `n`,
/// for every `n` below `256^k`.
pub proof fn lemma_be_fixed_value(n: nat, k: nat)
    requires
        n < pow256(k),
    ensures
        be_fixed(n, k).len() == k,
        be_value(be_fixed(n, k)) == n,
    decreases k,
{
    if k > 0 {
        assert(pow256(k) == 256 * pow256((k - 1) as nat));
        lemma_be_fixed_value(n / 256, (k - 1) as nat);
        assert(be_fixed(n, k).drop_last() =~= be_fixed(n / 256, (k - 1) as nat));
    }
}

/// `der_integer` is a faithful DER encoding: a non-empty, non-negative two's-complement
/// integer whose value is `n`, with no redundant leading byte.
pub proof fn lemma_der_integer_value(n: nat)
    ensures
        der_integer(n).len() >= 1,
        der_integer(n)[0] < 0x80,
        be_value(der_integer(n)) == n,
        der_integer(n).len() > 1 ==> !(der_integer(n)[0] == 0 && der_integer(n)[1] < 0x80),
        der_integer(n).len() > 1 ==> !(der_integer(n)[0] == 0xff),
{
    lemma_be_min_value(n);
    lemma_be_min_shape(n);
    if be_min(n)[0] >= 0x80 {
        lemma_leading_zero_value(be_min(n));
    }
}

proof fn lemma_be_min_value(n: nat)
    ensures
        be_value(be_min(n)) == n,
    decreases n,
{
    if n < 256 {
        assert(be_min(n).drop_last() =~= Seq::<u8>::empty());
        assert(be_value(be_min(n).drop_last()) == 0);
        assert(be_min(n).last() == n);
    } else {
        lemma_be_min_value(n / 256);
        assert(be_min(n).drop_last() =~= be_min(n / 256));
        assert(be_min(n).last() == n % 256);
    }
}

/// An ECDSA signature of two integers below `2^256`, each a minimal DER `INTEGER`,
/// converts to the two integers written as 32 big-endian bytes each.
pub proof fn lemma_der_integers_convert(a: nat, b: nat)
    requires
        a < pow256(32),
        b < pow256(32),
    ensures
        der_to_jws_result(der_signature(der_integer(a), der_integer(b))) == Ok::<Seq<u8>, ErrorView>(
            be_fixed(a, 32) + be_fixed(b, 32),
        ),
{
    lemma_der_integer_trims(a);
    lemma_der_integer_trims(b);
    lemma_be_min_fits(a, 32);
    lemma_be_min_fits(b, 32);
    lemma_be_fixed_pads(a, 32);
    lemma_be_fixed_pads(b, 32);
    lemma_der_signature_converts(der_integer(a), der_integer(b));
}

proof fn lemma_der_integer_trims(n: nat)
    ensures
        der_integer(n).len() >= 1,
        trimmed(der_integer(n)) == be_min(n),
{
    lemma_be_min_shape(n);
    if be_min(n)[0] >= 0x80 {
        assert((seq![0u8] + be_min(n)).drop_first() =~= be_min(n));
    }
}

fn signing_error(m: String) -> (e: Error)
    ensures
        e@ == ErrorView::Signing(m@),
{
    Error::Signing(m)
}

/// Drops a leading zero byte (the sign byte of a DER integer), unless it is the only byte.
fn trim_leading_zero(bytes: &[u8]) -> (t: &[u8])
    ensures
        t@ == trimmed(bytes@),
{
    if bytes.first() == Some(&0) && bytes.len() > 1 {
        &bytes[1..bytes.len()]
    } else {
        bytes
    }
}

/// Appends `32 - b.len()` zeros and then `b`.
fn push_padded(out: &mut Vec<u8>, b: &[u8])
    requires
        b@.len() <= 32,
    ensures
        final(out)@ == old(out)@ + pad32(b@),
{
    let ghost start = out@;
    let pad: usize = 32 - b.len();
    let mut i: usize = 0;
    while i < pad
        invariant
            pad == 32 - b@.len(),
            i <= pad,
            out@ == start + Seq::new(i as nat, |k: int| 0u8),
        decreases pad - i,
    {
        out.push(0u8);
        i = i + 1;
        assert(out@ =~= start + Seq::new(i as nat, |k: int| 0u8));
    }
    let mut j: usize = 0;
    while j < b.len()
        invariant
            pad == 32 - b@.len(),
            j <= b@.len(),
            out@ == start + Seq::new(pad as nat, |k: int| 0u8) + b@.take(j as int),
        decreases b@.len() - j,
    {
        out.push(b[j]);
        j = j + 1;
        assert(out@ =~= start + Seq::new(pad as nat, |k: int| 0u8) + b@.take(j as int));
    }
    assert(b@.take(b@.len() as int) =~= b@);
    assert(final(out)@ =~= old(out)@ + pad32(b@));
}

fn hex_digit(d: u8) -> (c: char)
    requires
        d < 16,
    ensures
        c == hex_char(d as int),
{
    if d < 10 {
        (48u8 + d) as char
    } else {
        (87u8 + d) as char
    }
}

/// Converts a DER-encoded ECDSA P-256 signature to the 64-byte JWS form
/// `R || S` (each integer left-padded to 32 bytes).
pub fn der_to_jws(der: &[u8]) -> (res: Result<Vec<u8>, Error>)
    ensures
        result_view(res) == der_to_jws_result(der@),
{
    let n = der.len();
    if n < 8 {
        let mut m = String::from_str("DER signature too short: ");
        push_decimal(&mut m, n as u64);
        m.append(" bytes");
        return Err(signing_error(m));
    }
    if der[0] != 0x30 {
        let mut m = String::from_str("expected DER SEQUENCE (0x30), got 0x");
        push_char(&mut m, hex_digit(der[0] / 16));
        push_char(&mut m, hex_digit(der[0] % 16));
        proof {
            assert(m@ =~= "expected DER SEQUENCE (0x30), got 0x"@ + hex_byte(der@[0]));
        }
        return Err(signing_error(m));
    }
    let mut pos: usize = 2;  // skip 0x30 <total_len>

    // Read R integer
    if pos >= n || der[pos] != 0x02 {
        return Err(signing_error(String::from_str("expected INTEGER tag (0x02) for R")));
    }
    pos = pos + 1;
    if pos >= n {
        return Err(signing_error(String::from_str("truncated DER: missing R length")));
    }
    let r_len = der[pos] as usize;
    pos = pos + 1;
    if pos + r_len > n {
        let mut m = String::from_str("truncated DER: R length ");
        push_decimal(&mut m, r_len as u64);
        m.append(" exceeds buffer (pos=");
        push_decimal(&mut m, pos as u64);
        m.append(", total=");
        push_decimal(&mut m, n as u64);
        m.append(")");
        proof {
            assert(decimal(4) =~= "4"@) by {
                reveal_strlit("4");
            }
            assert(" exceeds buffer (pos="@ + "4"@ + ", total="@ =~= " exceeds buffer (pos=4, total="@)
                by {
                reveal_strlit(" exceeds buffer (pos=");
                reveal_strlit("4");
                reveal_strlit(", total=");
                reveal_strlit(" exceeds buffer (pos=4, total=");
            }
            assert(m@ =~= "truncated DER: R length "@ + decimal(der@[3] as nat)
                + " exceeds buffer (pos=4, total="@ + decimal(n as nat) + ")"@);
        }
        return Err(signing_error(m));
    }
    let r_bytes = &der[pos..pos + r_len];
    pos = pos + r_len;

    // Read S integer
    if pos >= n || der[pos] != 0x02 {
        return Err(signing_error(String::from_str("expected INTEGER tag (0x02) for S")));
    }
    pos = pos + 1;
    if pos >= n {
        return Err(signing_error(String::from_str("truncated DER: missing S length")));
    }
    let s_len = der[pos] as usize;
    pos = pos + 1;
    if pos + s_len > n {
        let mut m = String::from_str("truncated DER: S length ");
        push_decimal(&mut m, s_len as u64);
        m.append(" exceeds buffer (pos=");
        push_decimal(&mut m, pos as u64);
        m.append(", total=");
        push_decimal(&mut m, n as u64);
        m.append(")");
        return Err(signing_error(m));
    }
    let s_bytes = &der[pos..pos + s_len];

    // Trim leading zero bytes (DER integers are signed, may have 0x00 prefix)
    let r_trimmed = trim_leading_zero(r_bytes);
    let s_trimmed = trim_leading_zero(s_bytes);

    if r_trimmed.len() > 32 || s_trimmed.len() > 32 {
        let mut m = String::from_str("integer too large for P-256: R=");
        push_decimal(&mut m, r_trimmed.len() as u64);
        m.append(" bytes, S=");
        push_decimal(&mut m, s_trimmed.len() as u64);
        m.append(" bytes");
        return Err(signing_error(m));
    }

    // Pad to exactly 32 bytes each, left-aligned
    let mut result: Vec<u8> = Vec::new();
    push_padded(&mut result, r_trimmed);
    push_padded(&mut result, s_trimmed);
    proof {
        assert(result@ =~= pad32(trimmed(der_r(der@))) + pad32(trimmed(der_s(der@))));
    }
    Ok(result)
}


// ── Claims and the signed token ────────────────────────────────────────

/// JWT claims for Akeyless OAuth2/JWT authentication.
#[derive(Debug, Clone, PartialEq, Eq)]
pub struct Claims {
    pub sub: String,
    pub iss: String,
    /// Left out of the JSON document when empty.
    pub aud: String,
    pub iat: i64,
    pub exp: i64,
    pub jti: String,
}

/// The JOSE header `{"alg":"ES256","kid":…,"typ":"JWT"}` (members in key order).
pub open spec fn header_text(kid: Seq<char>) -> Seq<char> {
    "{\"alg\":\"ES256\",\"kid\":"@ + json_string(kid) + ",\"typ\":\"JWT\"}"@
}

/// The header is the JSON object `{"alg":"ES256","kid":<label>,"typ":"JWT"}`
/// whose `kid` member is the whole key label, whatever the label.
pub proof fn lemma_header_names_key(kid: Seq<char>)
    ensures
        header_text(kid) == json_object(
            seq![
                ("alg"@, json_string("ES256"@)),
                ("kid"@, json_string(kid)),
                ("typ"@, json_string("JWT"@)),
            ],
        ),
{
    reveal_strlit("alg");
    reveal_strlit("ES256");
    reveal_strlit("kid");
    reveal_strlit("typ");
    reveal_strlit("JWT");
    reveal_strlit("{\"alg\":\"ES256\",\"kid\":");
    reveal_strlit(",\"typ\":\"JWT\"}");
    lemma_json_string_plain("alg"@);
    lemma_json_string_plain("ES256"@);
    lemma_json_string_plain("kid"@);
    lemma_json_string_plain("typ"@);
    lemma_json_string_plain("JWT"@);
    let m0 = ("alg"@, json_string("ES256"@));
    let m1 = ("kid"@, json_string(kid));
    let m2 = ("typ"@, json_string("JWT"@));
    let ms = seq![m0, m1, m2];
    assert(ms.drop_first() =~= seq![m1, m2]);
    assert(seq![m1, m2].drop_first() =~= seq![m2]);
    assert(json_members(seq![m2]) == json_member(m2.0, m2.1));
    assert(json_members(seq![m1, m2]) == json_member(m1.0, m1.1) + seq![','] + json_members(seq![m2]));
    assert(json_members(ms) == json_member(m0.0, m0.1) + seq![','] + json_members(seq![m1, m2]));
    assert(header_text(kid) =~= json_object(ms));
}

/// Different key labels give different headers: the header names its key
/// unambiguously.
pub proof fn lemma_header_text_unambiguous(k1: Seq<char>, k2: Seq<char>)
    requires
        header_text(k1) == header_text(k2),
    ensures
        k1 == k2,
{
    let p = "{\"alg\":\"ES256\",\"kid\":"@;
    let q = ",\"typ\":\"JWT\"}"@;
    assert(header_text(k1) =~= p + (json_string(k1) + q));
    assert(header_text(k2) =~= p + (json_string(k2) + q));
    lemma_strip_prefix(p, json_string(k1) + q, json_string(k2) + q);
    lemma_json_string_unique(k1, k2, q, q);
}

/// The claims as compact JSON, members in declaration order, `aud` only when non-empty.
pub open spec fn claims_text(c: Claims) -> Seq<char> {
    "{\"sub\":"@ + json_string(c.sub@) + ",\"iss\":"@ + json_string(c.iss@) + (if c.aud@.len() == 0 {
        Seq::<char>::empty()
    } else {
        ",\"aud\":"@ + json_string(c.aud@)
    }) + ",\"iat\":"@ + signed_decimal(c.iat as int) + ",\"exp\":"@ + signed_decimal(c.exp as int)
        + ",\"jti\":"@ + json_string(c.jti@) + "}"@
}

/// The UTF-8 bytes of a text.
pub open spec fn utf8(s: Seq<char>) -> Seq<u8> {
    vstd::utf8::encode_utf8(s)
}

/// The JWS signing input `base64url(header) "." base64url(claims)`.
pub open spec fn signing_input(kid: Seq<char>, c: Claims) -> Seq<char> {
    base64url(utf8(header_text(kid))) + seq!['.'] + base64url(utf8(claims_text(c)))
}

/// The compact token from a signing input and the key store's DER signature:
/// `input "." base64url(R || S)`, or the conversion's error.
pub open spec fn sealed_token(input: Seq<char>, der: Seq<u8>) -> Result<Seq<char>, ErrorView> {
    match der_to_jws_result(der) {
        Ok(jws) => Ok(input + seq!['.'] + base64url(jws)),
        Err(e) => Err(e),
    }
}

/// The error for a header or claims document too long to encode.
pub open spec fn oversized_error() -> ErrorView {
    ErrorView::Serialization("token input too large to encode"@)
}

/// Whether the header or the claims document is too long to encode.
pub open spec fn oversized(kid: Seq<char>, c: Claims) -> bool {
    utf8(header_text(kid)).len() > MAX_ENCODABLE || utf8(claims_text(c)).len() > MAX_ENCODABLE
}

/// Text made only of base64url alphabet characters.
pub open spec fn is_base64url_text(s: Seq<char>) -> bool {
    forall|i: int| 0 <= i < s.len() ==> is_base64url_char(#[trigger] s[i])
}

/// A compact token: three base64url segments joined by `.`.
pub open spec fn is_three_segment_token(t: Seq<char>) -> bool {
    exists|h: Seq<char>, c: Seq<char>, sig: Seq<char>|
        is_base64url_text(h) && is_base64url_text(c) && is_base64url_text(sig) && t == h + seq!['.']
            + c + seq!['.'] + sig
}

/// The number of occurrences of `c` in `s`.
pub open spec fn count_char(s: Seq<char>, c: char) -> nat
    decreases s.len(),
{
    if s.len() == 0 {
        0
    } else {
        count_char(s.drop_last(), c) + if s.last() == c {
            1nat
        } else {
            0nat
        }
    }
}

/// Counting distributes over concatenation.
pub proof fn lemma_count_concat(a: Seq<char>, b: Seq<char>, c: char)
    ensures
        count_char(a + b, c) == count_char(a, c) + count_char(b, c),
    decreases b.len(),
{
    if b.len() == 0 {
        assert(a + b =~= a);
    } else {
        lemma_count_concat(a, b.drop_last(), c);
        assert((a + b).drop_last() =~= a + b.drop_last());
    }
}

proof fn lemma_base64url_has_no_dot(s: Seq<char>)
    requires
        is_base64url_text(s),
    ensures
        count_char(s, '.') == 0,
    decreases s.len(),
{
    if s.len() > 0 {
        assert(is_base64url_char(s[s.len() - 1]));
        lemma_base64url_has_no_dot(s.drop_last());
    }
}

/// A compact token holds exactly two `.` separators, so splitting it at `.`
/// gives exactly three parts: header, claims and signature.
pub proof fn lemma_token_has_three_parts(t: Seq<char>)
    requires
        is_three_segment_token(t),
    ensures
        count_char(t, '.') == 2,
{
    let (h, c, sig) = choose|h: Seq<char>, c: Seq<char>, sig: Seq<char>|
        is_base64url_text(h) && is_base64url_text(c) && is_base64url_text(sig) && t == h + seq!['.']
            + c + seq!['.'] + sig;
    lemma_base64url_has_no_dot(h);
    lemma_base64url_has_no_dot(c);
    lemma_base64url_has_no_dot(sig);
    let dot = seq!['.'];
    assert(count_char(dot, '.') == 1) by {
        assert(dot.drop_last() =~= Seq::<char>::empty());
        assert(count_char(dot.drop_last(), '.') == 0);
        assert(dot.last() == '.');
    }
    lemma_count_concat(h, dot, '.');
    lemma_count_concat(h + dot, c, '.');
    lemma_count_concat(h + dot + c, dot, '.');
    lemma_count_concat(h + dot + c + dot, sig, '.');
}

// ── The claims document reads one way only ─────────────────────────────

spec fn aud_part(c: Claims) -> Seq<char> {
    if c.aud@.len() == 0 {
        Seq::<char>::empty()
    } else {
        ",\"aud\":"@ + json_string(c.aud@)
    }
}

spec fn after_exp(c: Claims) -> Seq<char> {
    ",\"jti\":"@ + (json_string(c.jti@) + "}"@)
}

spec fn after_iat(c: Claims) -> Seq<char> {
    ",\"exp\":"@ + (signed_decimal(c.exp as int) + after_exp(c))
}

spec fn after_aud(c: Claims) -> Seq<char> {
    ",\"iat\":"@ + (signed_decimal(c.iat as int) + after_iat(c))
}

spec fn after_iss(c: Claims) -> Seq<char> {
    aud_part(c) + after_aud(c)
}

spec fn after_sub(c: Claims) -> Seq<char> {
    ",\"iss\":"@ + (json_string(c.iss@) + after_iss(c))
}

proof fn lemma_claims_text_parts(c: Claims)
    ensures
        claims_text(c) == "{\"sub\":"@ + (json_string(c.sub@) + after_sub(c)),
{
    let p1 = "{\"sub\":"@;
    let j1 = json_string(c.sub@);
    let p2 = ",\"iss\":"@;
    let j2 = json_string(c.iss@);
    let a = aud_part(c);
    let p3 = ",\"iat\":"@;
    let d1 = signed_decimal(c.iat as int);
    let p4 = ",\"exp\":"@;
    let d2 = signed_decimal(c.exp as int);
    let p5 = ",\"jti\":"@;
    let j3 = json_string(c.jti@);
    let p6 = "}"@;
    let t = claims_text(c);
    assert(t == p1 + j1 + p2 + j2 + a + p3 + d1 + p4 + d2 + p5 + j3 + p6);
    let x9 = p1 + j1 + p2 + j2 + a + p3 + d1 + p4 + d2;
    lemma_concat_associative(x9 + p5, j3, p6);
    lemma_concat_associative(x9, p5, j3 + p6);
    assert(t == x9 + after_exp(c));
    let x7 = p1 + j1 + p2 + j2 + a + p3 + d1;
    lemma_concat_associative(x7 + p4, d2, after_exp(c));
    lemma_concat_associative(x7, p4, d2 + after_exp(c));
    assert(t == x7 + after_iat(c));
    let x5 = p1 + j1 + p2 + j2 + a;
    lemma_concat_associative(x5 + p3, d1, after_iat(c));
    lemma_concat_associative(x5, p3, d1 + after_iat(c));
    assert(t == x5 + after_aud(c));
    let x4 = p1 + j1 + p2 + j2;
    lemma_concat_associative(x4, a, after_aud(c));
    assert(t == x4 + after_iss(c));
    let x2 = p1 + j1;
    lemma_concat_associative(x2 + p2, j2, after_iss(c));
    lemma_concat_associative(x2, p2, j2 + after_iss(c));
    assert(t == x2 + after_sub(c));
    lemma_concat_associative(p1, j1, after_sub(c));
}

proof fn lemma_claims_head_names()
    ensures
        "{\"sub\":"@ == seq!['{'] + json_string("sub"@) + seq![':'],
        ",\"iss\":"@ == seq![','] + json_string("iss"@) + seq![':'],
        ",\"aud\":"@ == seq![','] + json_string("aud"@) + seq![':'],
{
    reveal_strlit("sub");
    reveal_strlit("iss");
    reveal_strlit("aud");
    reveal_strlit("{\"sub\":");
    reveal_strlit(",\"iss\":");
    reveal_strlit(",\"aud\":");
    lemma_json_string_plain("sub"@);
    lemma_json_string_plain("iss"@);
    lemma_json_string_plain("aud"@);
    assert("{\"sub\":"@ =~= seq!['{'] + json_string("sub"@) + seq![':']);
    assert(",\"iss\":"@ =~= seq![','] + json_string("iss"@) + seq![':']);
    assert(",\"aud\":"@ =~= seq![','] + json_string("aud"@) + seq![':']);
}

spec fn claims_tail_members(c: Claims) -> Seq<(Seq<char>, Seq<char>)> {
    seq![
        ("iat"@, signed_decimal(c.iat as int)),
        ("exp"@, signed_decimal(c.exp as int)),
        ("jti"@, json_string(c.jti@)),
    ]
}

proof fn lemma_claims_tail(c: Claims)
    ensures
        after_aud(c) == seq![','] + (json_members(claims_tail_members(c)) + seq!['}']),
{
    reveal_strlit("iat");
    reveal_strlit("exp");
    reveal_strlit("jti");
    reveal_strlit(",\"iat\":");
    reveal_strlit(",\"exp\":");
    reveal_strlit(",\"jti\":");
    reveal_strlit("}");
    lemma_json_string_plain("iat"@);
    lemma_json_string_plain("exp"@);
    lemma_json_string_plain("jti"@);
    let mt = ("iat"@, signed_decimal(c.iat as int));
    let me = ("exp"@, signed_decimal(c.exp as int));
    let mj = ("jti"@, json_string(c.jti@));
    let comma = seq![','];
    let colon = seq![':'];
    let close = seq!['}'];
    assert(",\"iat\":"@ =~= comma + json_string("iat"@) + colon);
    assert(",\"exp\":"@ =~= comma + json_string("exp"@) + colon);
    assert(",\"jti\":"@ =~= comma + json_string("jti"@) + colon);
    assert("}"@ =~= close);
    let s_j = json_members(seq![mj]) + close;
    assert(json_members(seq![mj]) == json_member(mj.0, mj.1));
    assert(after_exp(c) =~= comma + s_j);
    lemma_json_members_cons(me, seq![mj]);
    assert(seq![me] + seq![mj] =~= seq![me, mj]);
    let s_e = json_members(seq![me, mj]) + close;
    assert(after_iat(c) =~= comma + s_e);
    lemma_json_members_cons(mt, seq![me, mj]);
    assert(seq![mt] + seq![me, mj] =~= seq![mt, me, mj]);
    assert(claims_tail_members(c) =~= seq![mt, me, mj]);
    assert(after_aud(c) =~= comma + (json_members(seq![mt, me, mj]) + close));
}

proof fn lemma_claims_members_without_aud(c: Claims)
    requires
        c.aud@.len() == 0,
    ensures
        claims_text(c) == json_object(
            seq![
                ("sub"@, json_string(c.sub@)),
                ("iss"@, json_string(c.iss@)),
                ("iat"@, signed_decimal(c.iat as int)),
                ("exp"@, signed_decimal(c.exp as int)),
                ("jti"@, json_string(c.jti@)),
            ],
        ),
{
    lemma_claims_head_names();
    lemma_claims_tail(c);
    lemma_claims_text_parts(c);
    let ms = ("sub"@, json_string(c.sub@));
    let mi = ("iss"@, json_string(c.iss@));
    let tail = claims_tail_members(c);
    let comma = seq![','];
    let close = seq!['}'];
    let p1 = "{\"sub\":"@;
    let j1 = json_string(c.sub@);
    assert(after_iss(c) =~= comma + (json_members(tail) + close));
    lemma_json_members_cons(mi, tail);
    let rest = seq![mi] + tail;
    let s_i = json_members(rest) + close;
    assert(after_sub(c) =~= comma + s_i);
    lemma_json_members_cons(ms, rest);
    let all = seq![ms] + rest;
    let js = json_members(all);
    assert(p1 + (j1 + (comma + s_i)) =~= seq!['{'] + js + close);
    assert(all =~= seq![ms, mi, tail[0], tail[1], tail[2]]);
}

proof fn lemma_claims_members_with_aud(c: Claims)
    requires
        c.aud@.len() != 0,
    ensures
        claims_text(c) == json_object(
            seq![
                ("sub"@, json_string(c.sub@)),
                ("iss"@, json_string(c.iss@)),
                ("aud"@, json_string(c.aud@)),
                ("iat"@, signed_decimal(c.iat as int)),
                ("exp"@, signed_decimal(c.exp as int)),
                ("jti"@, json_string(c.jti@)),
            ],
        ),
{
    lemma_claims_head_names();
    lemma_claims_tail(c);
    lemma_claims_text_parts(c);
    let ms = ("sub"@, json_string(c.sub@));
    let mi = ("iss"@, json_string(c.iss@));
    let ma = ("aud"@, json_string(c.aud@));
    let tail = claims_tail_members(c);
    let comma = seq![','];
    let close = seq!['}'];
    let p1 = "{\"sub\":"@;
    let j1 = json_string(c.sub@);
    lemma_json_members_cons(ma, tail);
    let r_a = seq![ma] + tail;
    let s_a = json_members(r_a) + close;
    assert(after_iss(c) =~= comma + s_a);
    lemma_json_members_cons(mi, r_a);
    let rest = seq![mi] + r_a;
    let s_i = json_members(rest) + close;
    assert(after_sub(c) =~= comma + s_i);
    lemma_json_members_cons(ms, rest);
    let all = seq![ms] + rest;
    let js = json_members(all);
    assert(p1 + (j1 + (comma + s_i)) =~= seq!['{'] + js + close);
    assert(all =~= seq![ms, mi, ma, tail[0], tail[1], tail[2]]);
}

/// The claims document is the JSON object of the members `sub`, `iss`, `aud`,
/// `iat`, `exp` and `jti`, in that order, each carrying its claim; `aud` is
/// there exactly when the audience is not empty.
pub proof fn lemma_claims_members(c: Claims)
    ensures
        c.aud@.len() == 0 ==> claims_text(c) == json_object(
            seq![
                ("sub"@, json_string(c.sub@)),
                ("iss"@, json_string(c.iss@)),
                ("iat"@, signed_decimal(c.iat as int)),
                ("exp"@, signed_decimal(c.exp as int)),
                ("jti"@, json_string(c.jti@)),
            ],
        ),
        c.aud@.len() != 0 ==> claims_text(c) == json_object(
            seq![
                ("sub"@, json_string(c.sub@)),
                ("iss"@, json_string(c.iss@)),
                ("aud"@, json_string(c.aud@)),
                ("iat"@, signed_decimal(c.iat as int)),
                ("exp"@, signed_decimal(c.exp as int)),
                ("jti"@, json_string(c.jti@)),
            ],
        ),
{
    if c.aud@.len() == 0 {
        lemma_claims_members_without_aud(c);
    } else {
        lemma_claims_members_with_aud(c);
    }
}

/// The signed claims document can be read only one way: two claims with the
/// same document agree in every member (an empty audience is left out, so
/// it is told apart from any non-empty one).
pub proof fn lemma_claims_text_unambiguous(c1: Claims, c2: Claims)
    requires
        claims_text(c1) == claims_text(c2),
    ensures
        c1.sub@ == c2.sub@,
        c1.iss@ == c2.iss@,
        c1.aud@ == c2.aud@,
        c1.iat == c2.iat,
        c1.exp == c2.exp,
        c1.jti@ == c2.jti@,
{
    reveal_strlit("{\"sub\":");
    reveal_strlit(",\"iss\":");
    reveal_strlit(",\"aud\":");
    reveal_strlit(",\"iat\":");
    reveal_strlit(",\"exp\":");
    reveal_strlit(",\"jti\":");
    reveal_strlit("}");
    lemma_claims_text_parts(c1);
    lemma_claims_text_parts(c2);
    lemma_strip_prefix(
        "{\"sub\":"@,
        json_string(c1.sub@) + after_sub(c1),
        json_string(c2.sub@) + after_sub(c2),
    );
    lemma_json_string_unique(c1.sub@, c2.sub@, after_sub(c1), after_sub(c2));
    lemma_strip_prefix(
        ",\"iss\":"@,
        json_string(c1.iss@) + after_iss(c1),
        json_string(c2.iss@) + after_iss(c2),
    );
    lemma_json_string_unique(c1.iss@, c2.iss@, after_iss(c1), after_iss(c2));

    let e1 = c1.aud@.len() == 0;
    let e2 = c2.aud@.len() == 0;
    if e1 != e2 {
        // `,"iat":` and `,"aud":` differ at their third character.
        assert(after_iss(c1)[2] == (if e1 { 'i' } else { 'a' }));
        assert(after_iss(c2)[2] == (if e2 { 'i' } else { 'a' }));
    }
    assert(e1 == e2);
    if e1 {
        assert(after_iss(c1) =~= after_aud(c1));
        assert(after_iss(c2) =~= after_aud(c2));
    } else {
        assert(after_iss(c1) =~= ",\"aud\":"@ + (json_string(c1.aud@) + after_aud(c1)));
        assert(after_iss(c2) =~= ",\"aud\":"@ + (json_string(c2.aud@) + after_aud(c2)));
        lemma_strip_prefix(
            ",\"aud\":"@,
            json_string(c1.aud@) + after_aud(c1),
            json_string(c2.aud@) + after_aud(c2),
        );
        lemma_json_string_unique(c1.aud@, c2.aud@, after_aud(c1), after_aud(c2));
    }
    lemma_strip_prefix(
        ",\"iat\":"@,
        signed_decimal(c1.iat as int) + after_iat(c1),
        signed_decimal(c2.iat as int) + after_iat(c2),
    );
    assert(after_iat(c1)[0] == ',');
    assert(after_iat(c2)[0] == ',');
    lemma_signed_decimal_unique(c1.iat as int, c2.iat as int, after_iat(c1), after_iat(c2));
    lemma_strip_prefix(
        ",\"exp\":"@,
        signed_decimal(c1.exp as int) + after_exp(c1),
        signed_decimal(c2.exp as int) + after_exp(c2),
    );
    assert(after_exp(c1)[0] == ',');
    assert(after_exp(c2)[0] == ',');
    lemma_signed_decimal_unique(c1.exp as int, c2.exp as int, after_exp(c1), after_exp(c2));
    lemma_strip_prefix(
        ",\"jti\":"@,
        json_string(c1.jti@) + "}"@,
        json_string(c2.jti@) + "}"@,
    );
    lemma_json_string_unique(c1.jti@, c2.jti@, "}"@, "}"@);
}

/// The JOSE header for key `kid`, as JSON text.
pub fn header_json(kid: &str) -> (s: String)
    ensures
        s@ == header_text(kid@),
{
    let mut out = String::from_str("{\"alg\":\"ES256\",\"kid\":");
    push_json_string(&mut out, kid);
    out.append(",\"typ\":\"JWT\"}");
    out
}

impl Claims {
    /// The claims as JSON text, as they are signed.
    pub fn to_json(&self) -> (s: String)
        ensures
            s@ == claims_text(*self),
    {
        let mut out = String::from_str("{\"sub\":");
        push_json_string(&mut out, self.sub.as_str());
        out.append(",\"iss\":");
        push_json_string(&mut out, self.iss.as_str());
        let ghost mid = out@;
        if !self.aud.as_str().is_empty() {
            out.append(",\"aud\":");
            push_json_string(&mut out, self.aud.as_str());
        }
        assert(self.aud@.len() == 0 ==> out@ =~= mid + Seq::<char>::empty());
        out.append(",\"iat\":");
        push_signed_decimal(&mut out, self.iat);
        out.append(",\"exp\":");
        push_signed_decimal(&mut out, self.exp);
        out.append(",\"jti\":");
        push_json_string(&mut out, self.jti.as_str());
        out.append("}");
        out
    }
}

/// Finishes a token: converts the key store's DER signature and appends it,
/// base64url-encoded, to the signing input.
pub fn seal_token(input: &str, der_sig: &[u8]) -> (res: Result<String, Error>)
    ensures
        result_view(res) == sealed_token(input@, der_sig@),
        res matches Ok(t) ==> is_base64url_text(t@.skip(input@.len() + 1int)),
{
    let jws = match der_to_jws(der_sig) {
        Ok(jws) => jws,
        Err(e) => return Err(e),
    };
    proof {
        lemma_jws_signature_length(der_sig@);
        lemma_encodable(64);
    }
    let sig_b64 = base64url_encode(jws.as_slice());
    let mut token = String::from_str(input);
    push_char(&mut token, '.');
    token.append(sig_b64.as_str());
    assert(token@ =~= input@ + seq!['.'] + base64url(jws@));
    assert(token@.skip(input@.len() + 1int) =~= sig_b64@);
    Ok(token)
}

/// Issues ES256 JWTs signed by a `KeyStore` (Touch ID per token).
#[derive(Debug)]
pub struct JwtTokenIssuer<K: KeyStore> {
    key_store: K,
    key_label: String,
}

impl<K: KeyStore> JwtTokenIssuer<K> {
    /// The label of the signing key (the header's `kid`).
    pub closed spec fn label(&self) -> Seq<char> {
        self.key_label@
    }

    /// The key store that signs.
    pub closed spec fn store(&self) -> K {
        self.key_store
    }

    pub fn new(key_store: K, key_label: String) -> (issuer: Self)
        ensures
            issuer.label() == key_label@,
            issuer.store() == key_store,
    {
        Self { key_store, key_label }
    }

    /// The token, or error, that signing `claims` comes to when the key store
    /// answers `signed` for the signing input: a signature is converted and
    /// appended, an error is handed on unchanged.
    pub open spec fn token_from(&self, claims: Claims, signed: Result<Seq<u8>, ErrorView>) -> Result<
        Seq<char>,
        ErrorView,
    > {
        match signed {
            Ok(der) => sealed_token(signing_input(self.label(), claims), der),
            Err(e) => Err(e),
        }
    }

    /// What issuing a token for `claims` may come out as: the oversize error
    /// when a document is too long to encode; otherwise the key store is asked
    /// to sign exactly the signing input with the key `label`, and its answer
    /// makes the token (three base64url segments) or the error.
    pub open spec fn token_outcome(&self, claims: Claims, out: Result<Seq<char>, ErrorView>) -> bool {
        if oversized(self.label(), claims) {
            out == Err::<Seq<char>, ErrorView>(oversized_error())
        } else {
            exists|signed: Result<Seq<u8>, ErrorView>|
                #[trigger] self.store().sign_outcome(
                    self.label(),
                    utf8(signing_input(self.label(), claims)),
                    signed,
                ) && out == self.token_from(claims, signed) && (out matches Ok(t)
                    ==> is_three_segment_token(t))
        }
    }

    /// What exporting the key set may come out as: a set holding exactly the
    /// key that the key store exports for `label`, or the store's error.
    pub open spec fn key_set_outcome(&self, out: Result<Seq<char>, ErrorView>) -> bool {
        match out {
            Ok(s) => exists|k: JwkText|
                #[trigger] self.store().public_key_outcome(self.label(), Ok(k)) && s
                    == single_key_set_text(k),
            Err(e) => self.store().public_key_outcome(self.label(), Err(e)),
        }
    }

    fn sign_jwt(&self, claims: &Claims) -> (res: Result<String, Error>)
        ensures
            self.token_outcome(*claims, result_view(res)),
    {
        let header = header_json(self.key_label.as_str());
        let body = claims.to_json();
        let header_bytes = header.as_str().as_bytes();
        let body_bytes = body.as_str().as_bytes();
        if header_bytes.len() > MAX_ENCODABLE || body_bytes.len() > MAX_ENCODABLE {
            return Err(Error::Serialization(String::from_str("token input too large to encode")));
        }
        proof {
            lemma_encodable(header_bytes@.len());
            lemma_encodable(body_bytes@.len());
        }
        let header_b64 = base64url_encode(header_bytes);
        let claims_b64 = base64url_encode(body_bytes);
        let ghost h64 = header_b64@;
        let ghost c64 = claims_b64@;
        let mut input = header_b64;
        push_char(&mut input, '.');
        input.append(claims_b64.as_str());
        assert(input@ =~= signing_input(self.label(), *claims));

        let signed = self.key_store.sign(self.key_label.as_str(), input.as_str().as_bytes());
        let ghost signed_view = result_view(signed);
        assert(self.store().sign_outcome(
            self.label(),
            utf8(signing_input(self.label(), *claims)),
            signed_view,
        ));
        let der_sig = match signed {
            Ok(d) => d,
            Err(e) => {
                assert(result_view(Err::<String, Error>(e)) == self.token_from(*claims, signed_view));
                return Err(e);
            },
        };
        let token = seal_token(input.as_str(), der_sig.as_slice());
        match token {
            Ok(t) => {
                proof {
                    let sig = t@.skip(input@.len() + 1int);
                    assert(t@ =~= h64 + seq!['.'] + c64 + seq!['.'] + sig);
                }
                assert(result_view(Ok::<String, Error>(t)) == self.token_from(*claims, signed_view));
                Ok(t)
            },
            Err(e) => {
                assert(result_view(Err::<String, Error>(e)) == self.token_from(*claims, signed_view));
                Err(e)
            },
        }
    }
}

impl<K: KeyStore> TokenIssuer for JwtTokenIssuer<K> {
    open spec fn issue_outcome(&self, claims: Claims, out: Result<Seq<char>, ErrorView>) -> bool {
        self.token_outcome(claims, out)
    }

    open spec fn jwks_outcome(&self, out: Result<Seq<char>, ErrorView>) -> bool {
        self.key_set_outcome(out)
    }

    fn issue(&self, claims: &Claims) -> (res: Result<String, Error>) {
        self.sign_jwt(claims)
    }

    fn jwks(&self) -> (res: Result<String, Error>) {
        let fetched = self.key_store.public_key_jwk(self.key_label.as_str());
        let jwk = match fetched {
            Ok(j) => j,
            Err(e) => return Err(e),
        };
        let ghost j = jwk;
        let mut keys: Vec<Jwk> = Vec::new();
        keys.push(jwk);
        let jwks = Jwks { keys };
        let s = jwks.to_json_pretty();
        proof {
            assert(jwks.keys@ =~= seq![j]);
            lemma_single_key_set(j);
            assert(self.store().public_key_outcome(self.label(), Ok(j@)));
        }
        Ok(s)
    }
}

} // verus!
