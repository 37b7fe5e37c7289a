[package]
name = "akeyless-auth"
version = "0.1.0"
edition = "2021"
publish = false

[dependencies]
base64 = "0.22"
chrono = { version = "0.4", default-features = false, features = ["clock"] }
uuid = { version = "1", features = ["v4"] }
serde = { version = "1", features = ["derive"] }
serde_json = "1"
thiserror = "1"
anyhow = "1"
tokio = { version = "1", features = ["rt-multi-thread", "macros", "net", "io-util"] }
clap = { version = "4", features = ["derive"] }
dirs = "5"
security-framework = "2"
security-framework-sys = "2"
core-foundation = "0.9"
