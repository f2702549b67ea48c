[package]
name = "farcoin"
version = "0.1.0"
edition = "2021"
publish = false

[dependencies]
k256 = "0.13"
sha3 = "0.10"
hifitime = "3"
rand_core = { version = "0.6", features = ["getrandom"] }
serde = { version = "1", features = ["derive"] }
serde_json = "1"
axum = "0.6"
tokio = { version = "1", features = ["macros", "rt-multi-thread", "time", "net"] }
