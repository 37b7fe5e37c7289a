use akeyless_auth::config::{Config, KeyProtection};
use akeyless_auth::protocol::{AuthRequest, AuthResponse, Jwk, Jwks};

// ── JSON format of the configuration and the protocol ───────────────

#[test]
fn config_default_values() {
    let json = r#"{
        "key_label": "test-key",
        "key_protection": "biometric",
        "socket_path": "/tmp/test.sock",
        "issuer": "test-issuer",
        "expiry_secs": 30,
        "subject": "test-user",
        "audience": "test-aud",
        "autostart": false
    }"#;

    let parsed: serde_json::Value = serde_json::from_str(json).unwrap();
    assert_eq!(parsed["key_protection"], "biometric");
    assert_eq!(parsed["expiry_secs"], 30);
    assert!(!parsed["autostart"].as_bool().unwrap());

    // And the library's defaults.
    let cfg = Config::defaults_for(Some("/home/u".into()), Some("u".into()));
    assert_eq!(cfg.key_label, "com.pleme.akeyless-auth");
    assert_eq!(cfg.key_protection, KeyProtection::Biometric);
    assert_eq!(cfg.socket_path, "/home/u/.config/akeyless-auth/sock");
    assert_eq!(cfg.issuer, "akeyless-auth");
    assert_eq!(cfg.expiry_secs, 60);
    assert_eq!(cfg.subject, "u");
    assert_eq!(cfg.audience, "");
    assert!(cfg.autostart);
}

#[test]
fn protocol_auth_request_serialization() {
    let json = r#"{"sub":"user","aud":"my-aud","expiry_secs":120}"#;
    let parsed: serde_json::Value = serde_json::from_str(json).unwrap();
    assert_eq!(parsed["sub"], "user");
    assert_eq!(parsed["expiry_secs"], 120);

    let req = AuthRequest {
        sub: "user".into(),
        aud: "my-aud".into(),
        expiry_secs: 120,
    };
    assert_eq!(req.to_json(), json);
}

#[test]
fn protocol_auth_request_defaults() {
    let json = r#"{"sub":"user"}"#;
    let parsed: serde_json::Value = serde_json::from_str(json).unwrap();
    assert_eq!(parsed["sub"], "user");
    // aud and expiry_secs should be optional
    assert_eq!(akeyless_auth::protocol::default_expiry(), 60);
}

#[test]
fn protocol_auth_response_serialization() {
    let json = r#"{"token":"eyJ...","expires_at":1234567890}"#;
    let parsed: serde_json::Value = serde_json::from_str(json).unwrap();
    assert!(parsed["token"].as_str().unwrap().starts_with("eyJ"));
    assert_eq!(parsed["expires_at"], 1234567890);

    let resp = AuthResponse {
        token: "eyJ...".into(),
        expires_at: 1234567890,
    };
    assert_eq!(resp.to_json(), json);
}

#[test]
fn jwk_serialization() {
    let json = r#"{
        "kty": "EC",
        "crv": "P-256",
        "x": "AQEBAQEBAQEBAQEBAQEBAQEBAQEBAQEBAQEBAQEBAQE",
        "y": "AgICAgICAgICAgICAgICAgICAgICAgICAgICAgICAgI",
        "kid": "test-key",
        "use": "sig",
        "alg": "ES256"
    }"#;

    let parsed: serde_json::Value = serde_json::from_str(json).unwrap();
    assert_eq!(parsed["kty"], "EC");
    assert_eq!(parsed["crv"], "P-256");
    assert_eq!(parsed["alg"], "ES256");
    assert_eq!(parsed["use"], "sig");
}

#[test]
fn jwks_format() {
    let jwks_json = r#"{"keys":[{
        "kty": "EC", "crv": "P-256",
        "x": "AAAA", "y": "BBBB",
        "kid": "k1", "use": "sig", "alg": "ES256"
    }]}"#;

    let parsed: serde_json::Value = serde_json::from_str(jwks_json).unwrap();
    let keys = parsed["keys"].as_array().unwrap();
    assert_eq!(keys.len(), 1);
    assert_eq!(keys[0]["kid"], "k1");

    let jwks = Jwks {
        keys: vec![Jwk {
            kty: "EC".into(),
            crv: "P-256".into(),
            x: "AAAA".into(),
            y: "BBBB".into(),
            kid: "k1".into(),
            key_use: "sig".into(),
            alg: "ES256".into(),
        }],
    };
    let ours: serde_json::Value = serde_json::from_str(&jwks.to_json_pretty()).unwrap();
    assert_eq!(ours, parsed);
}

#[test]
fn key_protection_enum_serde() {
    assert_eq!(
        serde_json::from_str::<serde_json::Value>(r#""biometric""#).unwrap(),
        "biometric"
    );
    assert_eq!(
        serde_json::from_str::<serde_json::Value>(r#""secure_enclave""#).unwrap(),
        "secure_enclave"
    );
}
