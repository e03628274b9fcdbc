[package]
name = "ciphermesh"
version = "0.1.0"
edition = "2021"
publish = false

[dependencies]
bincode = "=1.3.3"
chacha20poly1305 = "=0.10.1"
ed25519-dalek = { version = "=3.0.0", features = ["rand_core"] }
futures = "=0.3.34"
getrandom = { version = "=0.4.3", features = ["sys_rng"] }
hkdf = "=0.12.4"
libp2p = { version = "=0.56.0", features = ["autonat", "cbor", "dcutr", "identify", "kad", "macros", "mdns", "noise", "ping", "relay", "request-response", "tcp", "tokio", "yamux"] }
quinn = { version = "=0.11.12", default-features = false, features = ["runtime-tokio", "rustls-ring"] }
rcgen = "=0.14.10"
rusqlite = { version = "=0.37.0", features = ["bundled"] }
rustyline = "=17.0.2"
serde = { version = "=1.0.229", features = ["derive"] }
sha2 = "=0.10.9"
tokio = { version = "=1.54.1", features = ["full"] }
x25519-dalek = { version = "=3.0.0", features = ["getrandom", "static_secrets"] }
