[package]
name = "nopu_nostr"
version = "0.1.0"
edition = "2021"
publish = false

[dependencies]
nostr = { version = "=0.42.2", features = ["nip04"] }
nostr-sdk = "=0.42.0"
tokio = { version = "=1.54.1", features = ["rt-multi-thread"] }
lazy_static = "=1.5.1"
thiserror = "=1.0.69"
