[package]
name = "messaging_core"
version = "0.1.0"
edition = "2021"
publish = false

[dependencies]
aes-gcm = "=0.10.3"
argon2 = "=0.5.3"
axum = { version = "=0.7.9", features = ["ws"] }
base64 = "=0.21.7"
chacha20poly1305 = "=0.10.1"
chrono = "=0.4.45"
dashmap = "=5.5.3"
dotenv = "=0.15.0"
ed25519-dalek = { version = "=2.2.0", features = ["rand_core"] }
futures = "=0.3.34"
hkdf = "=0.12.4"
hmac = "=0.12.1"
jsonwebtoken = "=9.3.1"
rand = "=0.8.8"
rdkafka = "=0.36.2"
redis = { version = "=0.25.5", features = ["tokio-comp"] }
reqwest = { version = "=0.12.28", default-features = false, features = ["json"] }
scylla = "=0.12.0"
serde = { version = "=1.0.229", features = ["derive"] }
serde_json = "=1.0.154"
sha2 = "=0.10.9"
sqlx = { version = "=0.7.4", default-features = false, features = ["runtime-tokio", "postgres"] }
thiserror = "=1.0.69"
tokio = { version = "=1.54.1", features = ["full"] }
tokio-tungstenite = "=0.21.0"
tracing = "=0.1.44"
tracing-subscriber = "=0.3.23"
uuid = { version = "=1.29.0", features = ["v4", "serde"] }
validator = "0.16"
x25519-dalek = { version = "=2.0.1", features = ["static_secrets"] }
