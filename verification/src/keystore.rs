//! The macOS Keychain key store: the decisions it makes around the Keychain
//! calls. The calls themselves (Security framework) are made by the application,
//! which hands their outcomes to the functions here.

use vstd::prelude::*;
use vstd::string::*;

use crate::config::KeyProtection;
use crate::encoding::{base64url, base64url_encode, base64url_len};
use crate::error::{result_view, Error, ErrorView};
use crate::protocol::{Jwk, JwkText};
use crate::text::{decimal, push_decimal, push_signed_decimal, signed_decimal};

verus! {

/// macOS Keychain-backed key store with biometric protection.
///
/// Keys are P-256 EC key pairs stored in the Keychain. Every signing
/// operation requires Touch ID. With `KeyProtection::SecureEnclave`, the key
/// is generated in the Secure Enclave; with `KeyProtection::Biometric`, it is
/// in the software Keychain but still requires Touch ID for every use.
#[derive(Debug)]
pub struct KeychainKeyStore {
    protection: KeyProtection,
}

/// `errSecItemNotFound`: the Keychain holds no matching item.
pub const ERR_SEC_ITEM_NOT_FOUND: i32 = -25300;

/// The error for generating a key under a label that is taken.
pub open spec fn duplicate_key_error(label: Seq<char>) -> ErrorView {
    ErrorView::KeyStore(
        "key '"@ + label + "' already exists — delete first with `akeyless-auth delete`"@,
    )
}

/// The JWK of a P-256 public key given in uncompressed SEC1 form
/// (`0x04 || x || y`, 65 bytes); any other form is refused.
pub open spec fn jwk_result(label: Seq<char>, point: Seq<u8>) -> Result<JwkText, ErrorView> {
    if point.len() != 65 || point[0] != 0x04 {
        Err(
            ErrorView::KeyStore(
                "unexpected public key format: "@ + decimal(point.len()) + " bytes"@,
            ),
        )
    } else {
        Ok(
            JwkText {
                kty: "EC"@,
                crv: "P-256"@,
                x: base64url(point.subrange(1, 33)),
                y: base64url(point.subrange(33, 65)),
                kid: label,
                key_use: "sig"@,
                alg: "ES256"@,
            },
        )
    }
}

/// Every uncompressed P-256 point (`0x04`, then 32 bytes of `x`, then 32 of `y`)
/// gives the JWK of key `label` whose coordinates are the base64url encodings of
/// exactly those 32-byte halves, nothing added or dropped; every other form of
/// public key is refused with a key-store error.
pub proof fn lemma_jwk_coordinates(label: Seq<char>, point: Seq<u8>)
    ensures
        point.len() == 65 && point[0] == 0x04 ==> (jwk_result(label, point) matches Ok(j) && j.x
            == base64url(point.subrange(1, 33)) && j.y == base64url(point.subrange(33, 65)) && j.kid
            == label && j.kty == "EC"@ && j.crv == "P-256"@ && j.alg == "ES256"@ && j.key_use
            == "sig"@),
        !(point.len() == 65 && point[0] == 0x04) ==> (jwk_result(label, point) matches Err(e)
            && e is KeyStore),
{
}

/// Whether `pat` occurs in `s`.
pub open spec fn contains_text(s: Seq<char>, pat: Seq<char>) -> bool {
    exists|i: int| 0 <= i <= s.len() - pat.len() && #[trigger] s.subrange(i, i + pat.len()) == pat
}

/// The error a failed signature becomes: a cancelled Touch ID prompt
/// (the failure text mentions `User canceled` or status `-128`) is a denial,
/// anything else a signing failure.
pub open spec fn signing_failure_error(description: Seq<char>) -> ErrorView {
    if contains_text(description, "User canceled"@) || contains_text(description, "-128"@) {
        ErrorView::BiometricDenied
    } else {
        ErrorView::Signing("signing failed: "@ + description)
    }
}

/// The outcome of a Keychain lookup by its status: a key was found (status 0
/// and an item), none exists (`errSecItemNotFound`), or the query failed.
pub open spec fn lookup_result(status: i32, found: bool) -> Result<bool, ErrorView> {
    if status == 0 && found {
        Ok(true)
    } else if status == ERR_SEC_ITEM_NOT_FOUND {
        Ok(false)
    } else {
        Err(
            ErrorView::KeyStore(
                "keychain query failed with status "@ + signed_decimal(status as int),
            ),
        )
    }
}

impl KeychainKeyStore {
    pub closed spec fn protection(&self) -> KeyProtection {
        self.protection
    }

    #[must_use]
    pub fn new(protection: KeyProtection) -> (s: Self)
        ensures
            s.protection() == protection,
    {
        Self { protection }
    }

    /// Whether keys are generated in the Secure Enclave.
    pub fn uses_secure_enclave(&self) -> (b: bool)
        ensures
            b == (self.protection() == KeyProtection::SecureEnclave),
    {
        self.protection == KeyProtection::SecureEnclave
    }

    /// Refuses to generate a key under a label that is taken.
    pub fn check_can_generate(label: &str, exists: bool) -> (res: Result<(), Error>)
        ensures
            exists ==> (res matches Err(e) && e@ == duplicate_key_error(label@)),
            !exists ==> res is Ok,
    {
        if exists {
            let mut m = String::from_str("key '");
            m.append(label);
            m.append("' already exists — delete first with `akeyless-auth delete`");
            return Err(Error::KeyStore(m));
        }
        Ok(())
    }

    /// Whether a key is present, from the outcome of a lookup (a failed lookup counts as absent).
    pub fn presence(lookup: Result<bool, Error>) -> (b: bool)
        ensures
            b == (lookup matches Ok(found) && found),
    {
        match lookup {
            Ok(found) => found,
            Err(_) => false,
        }
    }

    /// Interprets the status of a Keychain lookup (`SecItemCopyMatching`).
    pub fn lookup_status(status: i32, found: bool) -> (res: Result<bool, Error>)
        ensures
            result_view(res) == lookup_result(status, found),
    {
        if status == 0 && found {
            Ok(true)
        } else if status == ERR_SEC_ITEM_NOT_FOUND {
            Ok(false)
        } else {
            let mut m = String::from_str("keychain query failed with status ");
            push_signed_decimal(&mut m, status as i64);
            Err(Error::KeyStore(m))
        }
    }

    /// The key that a lookup for `label` found: no key is a `KeyNotFound` error
    /// naming the label, and a failed lookup passes its error on.
    pub fn found_key<K>(label: &str, lookup: Result<Option<K>, Error>) -> (res: Result<K, Error>)
        ensures
            (match lookup {
                Ok(Some(k)) => res == Ok::<K, Error>(k),
                Ok(None) => res matches Err(e) && e@ == (ErrorView::KeyNotFound { label: label@ }),
                Err(e) => res == Err::<K, Error>(e),
            }),
    {
        match lookup {
            Ok(Some(k)) => Ok(k),
            Ok(None) => Err(Error::KeyNotFound { label: String::from_str(label) }),
            Err(e) => Err(e),
        }
    }

    /// The public half of a private key, where the Keychain could derive one.
    pub fn extracted_public_key<P>(public_key: Option<P>) -> (res: Result<P, Error>)
        ensures
            (match public_key {
                Some(p) => res == Ok::<P, Error>(p),
                None => res matches Err(e) && e@ == ErrorView::KeyStore(
                    "failed to extract public key"@,
                ),
            }),
    {
        match public_key {
            Some(p) => Ok(p),
            None => Err(Error::KeyStore(String::from_str("failed to extract public key"))),
        }
    }

    /// The exported form of a public key, where the Keychain could export it.
    pub fn exported_public_key<B>(export: Option<B>) -> (res: Result<B, Error>)
        ensures
            (match export {
                Some(b) => res == Ok::<B, Error>(b),
                None => res matches Err(e) && e@ == ErrorView::KeyStore(
                    "failed to export public key"@,
                ),
            }),
    {
        match export {
            Some(b) => Ok(b),
            None => Err(Error::KeyStore(String::from_str("failed to export public key"))),
        }
    }

    /// The key that `delete` removes: the one a lookup found. A lookup that found
    /// nothing, or failed, leaves nothing to delete.
    pub fn deletion_target<K>(lookup: Result<Option<K>, Error>) -> (target: Option<K>)
        ensures
            target == (match lookup {
                Ok(Some(k)) => Some(k),
                _ => None::<K>,
            }),
    {
        match lookup {
            Ok(Some(k)) => Some(k),
            _ => None,
        }
    }

    /// The error for a failed signature, from the failure's description.
    pub fn signing_failure(description: &str) -> (e: Error)
        ensures
            e@ == signing_failure_error(description@),
    {
        if contains(description, "User canceled") || contains(description, "-128") {
            Error::BiometricDenied
        } else {
            let mut m = String::from_str("signing failed: ");
            m.append(description);
            Error::Signing(m)
        }
    }

    /// The JWK of the key `label`, from its public key in uncompressed SEC1 form.
    pub fn jwk_from_public_key(label: &str, point: &[u8]) -> (res: Result<Jwk, Error>)
        ensures
            result_view(res) == jwk_result(label@, point@),
            res matches Ok(j) ==> j.x@.len() == 43 && j.y@.len() == 43,
    {
        // P-256 uncompressed point: 0x04 || x (32 bytes) || y (32 bytes) = 65 bytes
        if point.len() != 65 || point[0] != 0x04 {
            let mut m = String::from_str("unexpected public key format: ");
            push_decimal(&mut m, point.len() as u64);
            m.append(" bytes");
            return Err(Error::KeyStore(m));
        }
        assert(base64url_len(32) <= usize::MAX);
        let x = base64url_encode(&point[1..33]);
        let y = base64url_encode(&point[33..65]);
        Ok(
            Jwk {
                kty: String::from_str("EC"),
                crv: String::from_str("P-256"),
                x,
                y,
                kid: String::from_str(label),
                key_use: String::from_str("sig"),
                alg: String::from_str("ES256"),
            },
        )
    }
}

/// The characters of a text, in order.
fn chars_of(s: &str) -> (v: Vec<char>)
    ensures
        v@ == s@,
{
    let mut v: Vec<char> = Vec::new();
    for c in it: s.chars()
        invariant
            it.seq() == s@,
            v@ == s@.take(it.index()),
    {
        v.push(c);
        assert(v@ =~= s@.take(it.index() + 1));
    }
    assert(s@.take(s@.len() as int) =~= s@);
    v
}

/// Whether `pat` occurs in `s`.
fn contains(s: &str, pat: &str) -> (b: bool)
    ensures
        b == contains_text(s@, pat@),
{
    let hay = chars_of(s);
    let needle = chars_of(pat);
    if needle.len() > hay.len() {
        return false;
    }
    let last = hay.len() - needle.len();
    if last == usize::MAX {
        // Only an empty pattern in a text of maximal length gets here; it occurs at 0.
        assert(s@.subrange(0, 0 + pat@.len() as int) =~= pat@);
        return true;
    }
    let mut i: usize = 0;
    while i <= last
        invariant
            hay@ == s@,
            needle@ == pat@,
            needle@.len() <= hay@.len(),
            last == hay@.len() - needle@.len(),
            i <= last + 1,
            last < usize::MAX,
            hay@.len() <= usize::MAX,
            forall|k: int| 0 <= k < i ==> #[trigger] s@.subrange(k, k + pat@.len()) != pat@,
        decreases last + 1 - i,
    {
        let mut j: usize = 0;
        let mut matched = true;
        while j < needle.len()
            invariant
                hay@ == s@,
                needle@ == pat@,
                needle@.len() <= hay@.len(),
                i <= last,
                hay@.len() <= usize::MAX,
                last == hay@.len() - needle@.len(),
                j <= needle@.len(),
                matched == (forall|m: int| 0 <= m < j ==> hay@[i + m] == needle@[m]),
            decreases needle@.len() - j,
        {
            if hay[i + j] != needle[j] {
                matched = false;
            }
            j = j + 1;
        }
        if matched {
            assert(s@.subrange(i as int, i + pat@.len()) =~= pat@);
            return true;
        }
        assert(s@.subrange(i as int, i + pat@.len()) != pat@) by {
            let m = choose|m: int| 0 <= m < needle@.len() && hay@[i + m] != needle@[m];
            assert(s@.subrange(i as int, i + pat@.len())[m] != pat@[m]);
        }
        i = i + 1;
    }
    false
}

} // verus!
