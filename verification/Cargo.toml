[package]
name = "frost"
version = "0.1.0"
edition = "2021"
publish = false

[dependencies]
clap = "4"
curve25519-dalek = "3.2"
hex = "0.4"
rand = "0.7"
serde_json = "1"
sha2 = "0.9"
tokio = { version = "1", features = ["fs", "io-util", "macros", "rt-multi-thread"] }
