[package]
name = "maccy"
version = "0.1.0"
edition = "2021"
publish = false

[dependencies]
base64 = "0.22"
chrono = "0.4"
futures = "0.3"
fuzzy-matcher = "0.3"
hex = "0.4"
hmac = "0.12"
libp2p = { version = "0.54", features = ["tokio", "tcp", "noise", "yamux", "mdns", "gossipsub", "identify", "request-response", "cbor", "macros"] }
log = "0.4"
parking_lot = "0.12"
rand = "0.8"
regex = "1"
rusqlite = { version = "0.32", features = ["bundled"] }
serde = { version = "1", features = ["derive"] }
serde_json = "1"
sha2 = "0.10"
thiserror = "1"
tokio = { version = "1", features = ["rt-multi-thread", "sync", "macros", "time"] }
uuid = { version = "1", features = ["v4"] }
x25519-dalek = { version = "2", features = ["static_secrets"] }
