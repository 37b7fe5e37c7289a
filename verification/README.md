# akeyless-auth

Biometric-gated authentication for Akeyless: a daemon and command-line tool
that issue short-lived ES256 JWTs signed by a P-256 key held in the macOS
Keychain, so that every token needs a Touch ID confirmation.

## Layout

- `src/` — the library, verified with Verus.
  - `jwt.rs`: DER → JWS signature conversion, the JOSE header and claims
    documents, and the token issuer over a key store; laws on the conversion
    (two minimal DER integers below 2^256 become their 32-byte big-endian
    forms; dropping the sign byte keeps an integer's value), the
    three-segment token and the unambiguous claims document.
  - `handler.rs`: how a daemon request becomes claims (defaults, clock, token ID).
  - `socket.rs`: the daemon's one-line JSON protocol: replies, reading replies,
    and laws that every message is one line and reads one way only.
  - `keystore.rs`: the decisions around the Keychain calls (public key → JWK,
    lookup status, missing keys and public keys, cancelled Touch ID, duplicate
    labels, what `delete` removes).
  - `protocol.rs`, `config.rs`, `error.rs`: data types, their JSON, defaults,
    the configuration file's path, errors.
  - `text.rs`, `encoding.rs`: decimal numerals, JSON string literals, base64url.
  - `traits.rs`: `KeyStore`, `TokenIssuer`, `RequestHandler`, each with a spec
    relation naming the outcomes its operations may have.
- `app/` — the program: arguments, configuration file and environment,
  the Security-framework calls (macOS only), and the Unix socket.
- `tests/` — tests of the library, run against the compiled crate.
