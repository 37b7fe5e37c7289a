use akeyless_auth::error::Error;
use akeyless_auth::jwt::{der_to_jws, header_json, seal_token, Claims, JwtTokenIssuer};
use akeyless_auth::protocol::Jwk;
use akeyless_auth::traits::{KeyStore, TokenIssuer};
use base64::engine::general_purpose::URL_SAFE_NO_PAD;
use base64::Engine;
use std::collections::BTreeMap;
use std::sync::Mutex;

/// In-memory key store (no Keychain, no Touch ID).
#[derive(Debug, Default)]
struct InMemoryKeyStore {
    keys: Mutex<BTreeMap<String, Vec<u8>>>,
}

impl InMemoryKeyStore {
    fn new() -> Self {
        Self::default()
    }
}

impl KeyStore for InMemoryKeyStore {
    fn generate(&self, label: &str) -> Result<(), Error> {
        let mut keys = self.keys.lock().unwrap();
        if keys.contains_key(label) {
            return Err(Error::KeyStore(format!("key '{label}' already exists")));
        }
        keys.insert(label.into(), vec![0x42; 32]);
        Ok(())
    }

    fn key_exists(&self, label: &str) -> Result<bool, Error> {
        Ok(self.keys.lock().unwrap().contains_key(label))
    }

    fn sign(&self, label: &str, data: &[u8]) -> Result<Vec<u8>, Error> {
        let keys = self.keys.lock().unwrap();
        let key = keys.get(label).ok_or_else(|| Error::KeyNotFound {
            label: label.into(),
        })?;
        let mut r = vec![0u8; 32];
        let mut s = vec![0u8; 32];
        for (i, &b) in data.iter().take(32).enumerate() {
            r[i] = b ^ key[i % key.len()];
            s[i] = b.wrapping_add(key[i % key.len()]);
        }
        let mut der = vec![0x30, 68, 0x02, 32];
        der.extend_from_slice(&r);
        der.push(0x02);
        der.push(32);
        der.extend_from_slice(&s);
        Ok(der)
    }

    fn public_key_jwk(&self, label: &str) -> Result<Jwk, Error> {
        let keys = self.keys.lock().unwrap();
        if !keys.contains_key(label) {
            return Err(Error::KeyNotFound {
                label: label.into(),
            });
        }
        Ok(Jwk {
            kty: "EC".into(),
            crv: "P-256".into(),
            x: URL_SAFE_NO_PAD.encode(vec![0x01; 32]),
            y: URL_SAFE_NO_PAD.encode(vec![0x02; 32]),
            kid: label.into(),
            key_use: "sig".into(),
            alg: "ES256".into(),
        })
    }

    fn delete(&self, label: &str) -> Result<(), Error> {
        self.keys.lock().unwrap().remove(label);
        Ok(())
    }
}

/// Token issuer that returns a fixed token (no signing).
#[derive(Debug)]
struct StaticTokenIssuer {
    token: String,
}

impl TokenIssuer for StaticTokenIssuer {
    fn issue(&self, _claims: &Claims) -> Result<String, Error> {
        Ok(self.token.clone())
    }
    fn jwks(&self) -> Result<String, Error> {
        Ok(r#"{"keys":[]}"#.into())
    }
}

/// Token issuer that always fails.
#[derive(Debug)]
struct FailingTokenIssuer;

impl TokenIssuer for FailingTokenIssuer {
    fn issue(&self, _claims: &Claims) -> Result<String, Error> {
        Err(Error::BiometricDenied)
    }
    fn jwks(&self) -> Result<String, Error> {
        Ok(r#"{"keys":[]}"#.into())
    }
}

fn signing_message(r: Result<Vec<u8>, Error>) -> String {
    match r {
        Err(Error::Signing(m)) => m,
        other => panic!("expected a signing error, got {other:?}"),
    }
}

#[test]
fn issue_jwt_with_mock_keystore() {
    let store = InMemoryKeyStore::new();
    store.generate("test-key").unwrap();

    let issuer = JwtTokenIssuer::new(store, "test-key".into());
    let claims = Claims {
        sub: "test-user".into(),
        iss: "akeyless-auth".into(),
        aud: String::new(),
        iat: 1000,
        exp: 1060,
        jti: "unique-id".into(),
    };

    let token = issuer.issue(&claims).unwrap();
    assert_eq!(token.split('.').count(), 3);

    let header_b64 = token.split('.').next().unwrap();
    let header_bytes = URL_SAFE_NO_PAD.decode(header_b64).unwrap();
    let header: serde_json::Value = serde_json::from_slice(&header_bytes).unwrap();
    assert_eq!(header["alg"], "ES256");
    assert_eq!(header["typ"], "JWT");
    assert_eq!(header["kid"], "test-key");
}

#[test]
fn jwks_output() {
    let store = InMemoryKeyStore::new();
    store.generate("test-key").unwrap();

    let issuer = JwtTokenIssuer::new(store, "test-key".into());
    let jwks_str = issuer.jwks().unwrap();
    let jwks: serde_json::Value = serde_json::from_str(&jwks_str).unwrap();
    let keys = jwks["keys"].as_array().unwrap();
    assert_eq!(keys.len(), 1);
    assert_eq!(keys[0]["alg"], "ES256");
}

#[test]
fn claims_serde_roundtrip() {
    let claims = Claims {
        sub: "user".into(),
        iss: "issuer".into(),
        aud: "audience".into(),
        iat: 1000,
        exp: 1060,
        jti: "id".into(),
    };
    let json = claims.to_json();
    let v: serde_json::Value = serde_json::from_str(&json).unwrap();
    let restored = Claims {
        sub: v["sub"].as_str().unwrap().into(),
        iss: v["iss"].as_str().unwrap().into(),
        aud: v["aud"].as_str().unwrap_or("").into(),
        iat: v["iat"].as_i64().unwrap(),
        exp: v["exp"].as_i64().unwrap(),
        jti: v["jti"].as_str().unwrap().into(),
    };
    assert_eq!(claims, restored);
}

#[test]
fn claims_empty_aud_skipped() {
    let claims = Claims {
        sub: "u".into(),
        iss: "i".into(),
        aud: String::new(),
        iat: 0,
        exp: 0,
        jti: "j".into(),
    };
    let json = claims.to_json();
    assert!(!json.contains("aud"));
}

#[test]
fn der_to_jws_valid() {
    let r = vec![0x01; 32];
    let s = vec![0x02; 32];
    let mut der = vec![0x30, 68, 0x02, 32];
    der.extend_from_slice(&r);
    der.push(0x02);
    der.push(32);
    der.extend_from_slice(&s);

    let jws = der_to_jws(&der).unwrap();
    assert_eq!(jws.len(), 64);
    assert_eq!(&jws[..32], &r[..]);
    assert_eq!(&jws[32..], &s[..]);
}

#[test]
fn der_to_jws_too_short() {
    assert!(der_to_jws(&[0x30, 0x00]).is_err());
}

#[test]
fn der_to_jws_wrong_tag() {
    assert!(der_to_jws(&[0x31, 0, 0, 0, 0, 0, 0, 0]).is_err());
}

#[test]
fn der_to_jws_truncated_r() {
    // R length says 32 but only 2 bytes follow
    assert!(der_to_jws(&[0x30, 10, 0x02, 32, 0x01, 0x02]).is_err());
}

#[test]
fn der_to_jws_oversized_integer() {
    // R is 33 bytes (after trimming leading zero, still 33)
    let mut der = vec![0x30, 72, 0x02, 33];
    der.extend_from_slice(&vec![0x01; 33]);
    der.push(0x02);
    der.push(32);
    der.extend_from_slice(&vec![0x02; 32]);
    assert!(der_to_jws(&der).is_err());
}

#[test]
fn static_token_issuer() {
    let issuer = StaticTokenIssuer {
        token: "fixed-token".into(),
    };
    let claims = Claims {
        sub: "u".into(),
        iss: "i".into(),
        aud: String::new(),
        iat: 0,
        exp: 0,
        jti: "j".into(),
    };
    assert_eq!(issuer.issue(&claims).unwrap(), "fixed-token");
}

#[test]
fn failing_token_issuer() {
    let issuer = FailingTokenIssuer;
    let claims = Claims {
        sub: "u".into(),
        iss: "i".into(),
        aud: String::new(),
        iat: 0,
        exp: 0,
        jti: "j".into(),
    };
    assert!(issuer.issue(&claims).is_err());
}

// ── Further cases of the conversion and the token ──────────────────────

#[test]
fn der_to_jws_strips_sign_byte_and_pads() {
    // R has a sign byte (33 bytes, leading 0x00); S is short (2 bytes).
    let mut r = vec![0x00];
    r.extend_from_slice(&[0x80; 32]);
    let s = vec![0x05, 0x06];
    let mut der = vec![0x30, (4 + r.len() + s.len()) as u8, 0x02, r.len() as u8];
    der.extend_from_slice(&r);
    der.push(0x02);
    der.push(s.len() as u8);
    der.extend_from_slice(&s);

    let jws = der_to_jws(&der).unwrap();
    assert_eq!(jws.len(), 64);
    assert_eq!(&jws[..32], &[0x80; 32][..]);
    assert_eq!(&jws[32..62], &[0u8; 30][..]);
    assert_eq!(&jws[62..], &[0x05, 0x06][..]);
}

#[test]
fn der_to_jws_single_zero_integer_is_kept() {
    let der = vec![0x30, 6, 0x02, 1, 0x00, 0x02, 1, 0x00];
    assert_eq!(der_to_jws(&der).unwrap(), vec![0u8; 64]);
}

/// The shortest DER `INTEGER` contents of a non-negative number.
fn der_integer_of(n: u128) -> Vec<u8> {
    let bytes = n.to_be_bytes();
    let first = bytes.iter().position(|b| *b != 0).unwrap_or(15);
    let mut out = Vec::new();
    if bytes[first] >= 0x80 {
        out.push(0x00);
    }
    out.extend_from_slice(&bytes[first..]);
    out
}

fn be32_of(n: u128) -> Vec<u8> {
    let mut out = vec![0u8; 16];
    out.extend_from_slice(&n.to_be_bytes());
    out
}

#[test]
fn der_to_jws_converts_integers_to_their_32_byte_forms() {
    let cases: [(u128, u128); 5] = [
        (0, 0),
        (0x80, 0x7f01),
        (1, u128::MAX),
        (0x0123_4567_89ab_cdef, 0xff),
        (u128::MAX / 3, 0x8000),
    ];
    for (a, b) in cases {
        let r = der_integer_of(a);
        let s = der_integer_of(b);
        let mut der = vec![0x30, (4 + r.len() + s.len()) as u8, 0x02, r.len() as u8];
        der.extend_from_slice(&r);
        der.push(0x02);
        der.push(s.len() as u8);
        der.extend_from_slice(&s);
        let mut expected = be32_of(a);
        expected.extend_from_slice(&be32_of(b));
        assert_eq!(der_to_jws(&der).unwrap(), expected);
    }
}

#[test]
fn der_to_jws_error_messages() {
    assert_eq!(
        signing_message(der_to_jws(&[0x30, 0x00])),
        "DER signature too short: 2 bytes"
    );
    assert_eq!(
        signing_message(der_to_jws(&[0x31, 0, 0, 0, 0, 0, 0, 0])),
        "expected DER SEQUENCE (0x30), got 0x31"
    );
    assert_eq!(
        signing_message(der_to_jws(&[0x30, 0xab, 0x03, 0, 0, 0, 0, 0])),
        "expected INTEGER tag (0x02) for R"
    );
    assert_eq!(
        signing_message(der_to_jws(&[0x30, 10, 0x02, 32, 0x01, 0x02, 0, 0])),
        "truncated DER: R length 32 exceeds buffer (pos=4, total=8)"
    );
    assert_eq!(
        signing_message(der_to_jws(&[0x30, 6, 0x02, 1, 0x01, 0x05, 1, 0x01])),
        "expected INTEGER tag (0x02) for S"
    );
    assert_eq!(
        signing_message(der_to_jws(&[0x30, 6, 0x02, 3, 0x01, 0x01, 0x01, 0x02])),
        "truncated DER: missing S length"
    );
    assert_eq!(
        signing_message(der_to_jws(&[0x30, 6, 0x02, 1, 0x01, 0x02, 5, 0x01])),
        "truncated DER: S length 5 exceeds buffer (pos=7, total=8)"
    );
    let mut der = vec![0x30, 72, 0x02, 33];
    der.extend_from_slice(&vec![0x01; 33]);
    der.push(0x02);
    der.push(32);
    der.extend_from_slice(&vec![0x02; 32]);
    assert_eq!(
        signing_message(der_to_jws(&der)),
        "integer too large for P-256: R=33 bytes, S=32 bytes"
    );
}

#[test]
fn header_json_members() {
    assert_eq!(
        header_json("test-key"),
        r#"{"alg":"ES256","kid":"test-key","typ":"JWT"}"#
    );
    assert_eq!(
        header_json("a\"b"),
        r#"{"alg":"ES256","kid":"a\"b","typ":"JWT"}"#
    );
}

#[test]
fn claims_json_exact_text() {
    let claims = Claims {
        sub: "user".into(),
        iss: "issuer".into(),
        aud: "audience".into(),
        iat: -5,
        exp: i64::MAX,
        jti: "id".into(),
    };
    assert_eq!(
        claims.to_json(),
        r#"{"sub":"user","iss":"issuer","aud":"audience","iat":-5,"exp":9223372036854775807,"jti":"id"}"#
    );
    let no_aud = Claims {
        aud: String::new(),
        iat: i64::MIN,
        ..claims
    };
    assert_eq!(
        no_aud.to_json(),
        r#"{"sub":"user","iss":"issuer","iat":-9223372036854775808,"exp":9223372036854775807,"jti":"id"}"#
    );
}

#[test]
fn claims_json_escapes_like_serde_json() {
    let tricky = "q\"b\\s/\u{1}\u{8}\u{c}\n\r\t\u{1f}\u{7f}é🙂";
    let claims = Claims {
        sub: tricky.into(),
        iss: "i".into(),
        aud: String::new(),
        iat: 0,
        exp: 0,
        jti: "j".into(),
    };
    let expected = format!(
        r#"{{"sub":{},"iss":"i","iat":0,"exp":0,"jti":"j"}}"#,
        serde_json::to_string(tricky).unwrap()
    );
    assert_eq!(claims.to_json(), expected);
}

#[test]
fn token_signature_is_the_converted_der() {
    let store = InMemoryKeyStore::new();
    store.generate("k").unwrap();
    let claims = Claims {
        sub: "s".into(),
        iss: "i".into(),
        aud: "a".into(),
        iat: 1,
        exp: 2,
        jti: "j".into(),
    };
    let issuer = JwtTokenIssuer::new(store, "k".into());
    let token = issuer.issue(&claims).unwrap();
    let parts: Vec<&str> = token.split('.').collect();
    assert_eq!(parts.len(), 3);

    let claims_bytes = URL_SAFE_NO_PAD.decode(parts[1]).unwrap();
    assert_eq!(String::from_utf8(claims_bytes).unwrap(), claims.to_json());

    let signing_input = format!("{}.{}", parts[0], parts[1]);
    let expected_der = InMemoryKeyStore {
        keys: Mutex::new(BTreeMap::from([("k".to_string(), vec![0x42; 32])])),
    }
    .sign("k", signing_input.as_bytes())
    .unwrap();
    let expected_sig = URL_SAFE_NO_PAD.encode(der_to_jws(&expected_der).unwrap());
    assert_eq!(parts[2], expected_sig);
    assert_eq!(URL_SAFE_NO_PAD.decode(parts[2]).unwrap().len(), 64);
}

#[test]
fn issue_without_key_fails() {
    let issuer = JwtTokenIssuer::new(InMemoryKeyStore::new(), "missing".into());
    let claims = Claims {
        sub: "s".into(),
        iss: "i".into(),
        aud: String::new(),
        iat: 0,
        exp: 0,
        jti: "j".into(),
    };
    assert!(matches!(issuer.issue(&claims), Err(Error::KeyNotFound { label }) if label == "missing"));
    assert!(issuer.jwks().is_err());
}

#[test]
fn seal_token_appends_encoded_signature() {
    let mut der = vec![0x30, 68, 0x02, 32];
    der.extend_from_slice(&[0xff; 32]);
    der.push(0x02);
    der.push(32);
    der.extend_from_slice(&[0x00; 32]);
    let token = seal_token("aaa.bbb", &der).unwrap();
    let mut jws = vec![0xff; 32];
    jws.extend_from_slice(&[0x00; 32]);
    assert_eq!(token, format!("aaa.bbb.{}", URL_SAFE_NO_PAD.encode(&jws)));
    assert!(seal_token("aaa.bbb", &[0x30]).is_err());
}

#[test]
fn jwks_pretty_text() {
    let store = InMemoryKeyStore::new();
    store.generate("test-key").unwrap();
    let issuer = JwtTokenIssuer::new(store, "test-key".into());
    let expected = "{\n  \"keys\": [\n    {\n      \"kty\": \"EC\",\n      \"crv\": \"P-256\",\n      \"x\": \"AQEBAQEBAQEBAQEBAQEBAQEBAQEBAQEBAQEBAQEBAQE\",\n      \"y\": \"AgICAgICAgICAgICAgICAgICAgICAgICAgICAgICAgI\",\n      \"kid\": \"test-key\",\n      \"use\": \"sig\",\n      \"alg\": \"ES256\"\n    }\n  ]\n}";
    assert_eq!(issuer.jwks().unwrap(), expected);
}
