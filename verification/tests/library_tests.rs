use akeyless_auth::config::{
    config_file_path, default_autostart, default_expiry_secs, default_issuer, default_key_label,
    default_socket_path, default_subject, KeyProtection,
};
use akeyless_auth::error::Error;
use akeyless_auth::jwt::Claims;
use akeyless_auth::keystore::{KeychainKeyStore, ERR_SEC_ITEM_NOT_FOUND};
use akeyless_auth::protocol::{AuthRequest, AuthResponse, DaemonResponse, ErrorResponse, Jwks};
use akeyless_auth::socket::{interpret_reply, reply_for_line, reply_line};
use akeyless_auth::traits::RequestHandler;

#[derive(Debug)]
struct FixedHandler {
    outcome: Result<String, String>,
}

impl RequestHandler for FixedHandler {
    fn handle(&self, req: &AuthRequest) -> Result<AuthResponse, Error> {
        match &self.outcome {
            Ok(t) => Ok(AuthResponse {
                token: format!("{t}:{}", req.sub),
                expires_at: 42,
            }),
            Err(m) => Err(Error::Signing(m.clone())),
        }
    }
}

#[test]
fn default_settings() {
    assert_eq!(default_key_label(), "com.pleme.akeyless-auth");
    assert_eq!(default_issuer(), "akeyless-auth");
    assert_eq!(default_expiry_secs(), 60);
    assert!(default_autostart());
    assert_eq!(default_subject(Some("luis".into())), "luis");
    assert_eq!(default_subject(None), "unknown");
    assert_eq!(KeyProtection::default(), KeyProtection::Biometric);
}

#[test]
fn socket_path_joins_like_pathbuf() {
    for home in ["/home/u", "/home/u/", "", "rel"] {
        let expected = std::path::PathBuf::from(home)
            .join(".config/akeyless-auth/sock")
            .to_string_lossy()
            .into_owned();
        assert_eq!(default_socket_path(Some(home.into())), expected);
    }
    assert_eq!(default_socket_path(None), "/tmp/.config/akeyless-auth/sock");
}

#[test]
fn error_messages() {
    let cases = vec![
        (Error::KeyStore("x".into()), "keystore error: x"),
        (Error::Signing("x".into()), "signing error: x"),
        (Error::KeyNotFound { label: "l".into() }, "key not found: l"),
        (Error::Jwt("x".into()), "JWT error: x"),
        (Error::Socket("x".into()), "socket error: x"),
        (Error::SocketInUse("/p".into()), "socket path already in use: /p"),
        (Error::Config("x".into()), "config error: x"),
        (
            Error::BiometricUnavailable,
            "biometric authentication required but not available",
        ),
        (Error::BiometricDenied, "biometric authentication denied by user"),
        (Error::Serialization("x".into()), "serialization error: x"),
        (Error::Daemon("x".into()), "daemon error: x"),
    ];
    for (e, m) in cases {
        assert_eq!(e.message(), m);
    }
}

#[test]
fn keychain_lookup_status() {
    assert!(matches!(KeychainKeyStore::lookup_status(0, true), Ok(true)));
    assert!(matches!(
        KeychainKeyStore::lookup_status(ERR_SEC_ITEM_NOT_FOUND, false),
        Ok(false)
    ));
    match KeychainKeyStore::lookup_status(-34018, false) {
        Err(Error::KeyStore(m)) => assert_eq!(m, "keychain query failed with status -34018"),
        other => panic!("unexpected {other:?}"),
    }
    match KeychainKeyStore::lookup_status(0, false) {
        Err(Error::KeyStore(m)) => assert_eq!(m, "keychain query failed with status 0"),
        other => panic!("unexpected {other:?}"),
    }
    assert!(KeychainKeyStore::presence(Ok(true)));
    assert!(!KeychainKeyStore::presence(Ok(false)));
    assert!(!KeychainKeyStore::presence(Err(Error::BiometricDenied)));
}

#[test]
fn keychain_generation_guard() {
    assert!(KeychainKeyStore::check_can_generate("k", false).is_ok());
    match KeychainKeyStore::check_can_generate("k", true) {
        Err(Error::KeyStore(m)) => assert_eq!(
            m,
            "key 'k' already exists — delete first with `akeyless-auth delete`"
        ),
        other => panic!("unexpected {other:?}"),
    }
    assert!(KeychainKeyStore::new(KeyProtection::SecureEnclave).uses_secure_enclave());
    assert!(!KeychainKeyStore::new(KeyProtection::Biometric).uses_secure_enclave());
}

#[test]
fn keychain_signing_failures() {
    assert!(matches!(
        KeychainKeyStore::signing_failure("The operation couldn’t be completed. User canceled"),
        Error::BiometricDenied
    ));
    assert!(matches!(
        KeychainKeyStore::signing_failure("error -128"),
        Error::BiometricDenied
    ));
    match KeychainKeyStore::signing_failure("error -25293") {
        Error::Signing(m) => assert_eq!(m, "signing failed: error -25293"),
        other => panic!("unexpected {other:?}"),
    }
    match KeychainKeyStore::signing_failure("") {
        Error::Signing(m) => assert_eq!(m, "signing failed: "),
        other => panic!("unexpected {other:?}"),
    }
}

#[test]
fn keychain_public_key_to_jwk() {
    let mut point = vec![0x04];
    point.extend_from_slice(&[0x01; 32]);
    point.extend_from_slice(&[0x02; 32]);
    let jwk = KeychainKeyStore::jwk_from_public_key("label", &point).unwrap();
    assert_eq!(jwk.kty, "EC");
    assert_eq!(jwk.crv, "P-256");
    assert_eq!(jwk.x, "AQEBAQEBAQEBAQEBAQEBAQEBAQEBAQEBAQEBAQEBAQE");
    assert_eq!(jwk.y, "AgICAgICAgICAgICAgICAgICAgICAgICAgICAgICAgI");
    assert_eq!(jwk.kid, "label");
    assert_eq!(jwk.key_use, "sig");
    assert_eq!(jwk.alg, "ES256");

    point[0] = 0x03;
    match KeychainKeyStore::jwk_from_public_key("label", &point) {
        Err(Error::KeyStore(m)) => assert_eq!(m, "unexpected public key format: 65 bytes"),
        other => panic!("unexpected {other:?}"),
    }
    match KeychainKeyStore::jwk_from_public_key("label", &[0x04; 33]) {
        Err(Error::KeyStore(m)) => assert_eq!(m, "unexpected public key format: 33 bytes"),
        other => panic!("unexpected {other:?}"),
    }
}

#[test]
fn daemon_reply_lines() {
    let ok = FixedHandler {
        outcome: Ok("tok".into()),
    };
    let req = AuthRequest {
        sub: "a\nb".into(),
        aud: String::new(),
        expiry_secs: 0,
    };
    assert!(reply_for_line(&ok, "", Err("EOF".into())).is_none());
    let reply = reply_for_line(&ok, "{...}\n", Ok(req.clone())).unwrap();
    assert_eq!(reply, r#"{"token":"tok:a\nb","expires_at":42}"#);
    assert!(!reply.contains('\n'));

    let failing = FixedHandler {
        outcome: Err("boom".into()),
    };
    let reply = reply_for_line(&failing, "{...}\n", Ok(req)).unwrap();
    assert_eq!(reply, r#"{"error":"signing error: boom"}"#);

    let reply = reply_for_line(&ok, "garbage\n", Err("expected value at line 1 column 1".into())).unwrap();
    assert_eq!(
        reply,
        r#"{"error":"invalid request: expected value at line 1 column 1"}"#
    );
}

#[test]
fn daemon_reply_interpretation() {
    let token = interpret_reply(
        "line",
        Ok(DaemonResponse::Token(AuthResponse {
            token: "t".into(),
            expires_at: 5,
        })),
    )
    .unwrap();
    assert_eq!(token.token, "t");
    assert_eq!(token.expires_at, 5);

    match interpret_reply(
        "line",
        Ok(DaemonResponse::Failure(ErrorResponse {
            error: "denied".into(),
        })),
    ) {
        Err(Error::Daemon(m)) => assert_eq!(m, "denied"),
        other => panic!("unexpected {other:?}"),
    }
    match interpret_reply("junk\n", Err("bad json".into())) {
        Err(Error::Config(m)) => assert_eq!(m, "invalid response from daemon: bad json: junk\n"),
        other => panic!("unexpected {other:?}"),
    }
}

#[test]
fn replies_and_requests_parse_as_json() {
    let req = AuthRequest {
        sub: "\u{0}ctl\t".into(),
        aud: "\"q\"".into(),
        expiry_secs: u64::MAX,
    };
    let v: serde_json::Value = serde_json::from_str(&req.to_json()).unwrap();
    assert_eq!(v["sub"], "\u{0}ctl\t");
    assert_eq!(v["aud"], "\"q\"");
    assert_eq!(v["expiry_secs"].as_u64(), Some(u64::MAX));

    let err = ErrorResponse {
        error: "x\\y".into(),
    };
    let v: serde_json::Value = serde_json::from_str(&err.to_json()).unwrap();
    assert_eq!(v["error"], "x\\y");
}

#[test]
fn empty_key_set_text() {
    let jwks = Jwks { keys: vec![] };
    assert_eq!(jwks.to_json_pretty(), "{\n  \"keys\": []\n}");
    let v: serde_json::Value = serde_json::from_str(&jwks.to_json_pretty()).unwrap();
    assert_eq!(
        serde_json::to_string_pretty(&v).unwrap(),
        jwks.to_json_pretty()
    );
}

#[test]
fn claims_are_plain_values() {
    let c = Claims {
        sub: "s".into(),
        iss: "i".into(),
        aud: "a".into(),
        iat: 1,
        exp: 2,
        jti: "j".into(),
    };
    assert_eq!(c.clone(), c);
}

#[test]
fn reply_line_for_outcomes() {
    let ok = reply_line(Ok(AuthResponse {
        token: "a.b.c".into(),
        expires_at: -1,
    }));
    assert_eq!(ok, r#"{"token":"a.b.c","expires_at":-1}"#);
    let err = reply_line(Err(Error::KeyNotFound {
        label: "k\"1".into(),
    }));
    assert_eq!(err, r#"{"error":"key not found: k\"1"}"#);
}

#[test]
fn keychain_found_key_outcomes() {
    assert!(matches!(KeychainKeyStore::found_key("k", Ok(Some(7u8))), Ok(7)));
    match KeychainKeyStore::found_key::<u8>("my-key", Ok(None)) {
        Err(Error::KeyNotFound { label }) => assert_eq!(label, "my-key"),
        other => panic!("unexpected: {other:?}"),
    }
    match KeychainKeyStore::found_key::<u8>("k", Err(Error::KeyStore("query".into()))) {
        Err(Error::KeyStore(m)) => assert_eq!(m, "query"),
        other => panic!("unexpected: {other:?}"),
    }
}

#[test]
fn keychain_public_key_steps() {
    assert!(matches!(KeychainKeyStore::extracted_public_key(Some(3u8)), Ok(3)));
    match KeychainKeyStore::extracted_public_key::<u8>(None) {
        Err(Error::KeyStore(m)) => assert_eq!(m, "failed to extract public key"),
        other => panic!("unexpected: {other:?}"),
    }
    assert_eq!(
        KeychainKeyStore::exported_public_key(Some(vec![4u8, 1])).unwrap(),
        vec![4u8, 1]
    );
    match KeychainKeyStore::exported_public_key::<Vec<u8>>(None) {
        Err(Error::KeyStore(m)) => assert_eq!(m, "failed to export public key"),
        other => panic!("unexpected: {other:?}"),
    }
}

#[test]
fn keychain_deletion_target() {
    assert_eq!(KeychainKeyStore::deletion_target(Ok(Some(9u8))), Some(9));
    assert_eq!(KeychainKeyStore::deletion_target::<u8>(Ok(None)), None);
    assert_eq!(
        KeychainKeyStore::deletion_target::<u8>(Err(Error::BiometricDenied)),
        None
    );
}

#[test]
fn config_file_path_choice() {
    assert_eq!(
        config_file_path(Some("/etc/akeyless.json".into()), Some("/home/u/.config".into())),
        "/etc/akeyless.json"
    );
    assert_eq!(
        config_file_path(None, Some("/home/u/.config".into())),
        "/home/u/.config/akeyless-auth/config.json"
    );
    assert_eq!(
        config_file_path(None, Some("/home/u/.config/".into())),
        "/home/u/.config/akeyless-auth/config.json"
    );
    assert_eq!(config_file_path(None, None), "/tmp/akeyless-auth/config.json");
}
