[package]
name = "stake_checker"
version = "0.1.0"
edition = "2021"
publish = false

[dependencies]
sp-core = "=43.0.0"
sp-crypto-hashing = "=0.1.0"
chrono = "=0.4.45"
serde_json = "=1.0.151"
reqwest = { version = "=0.13.5", default-features = false, features = ["json"] }
tokio = { version = "=1.53.2", features = ["macros", "rt-multi-thread"] }
clap = "=4.6.7"
dotenv = "=0.15.0"
frame-metadata = { version = "=23.0.1", features = ["serde_full"] }
parity-scale-codec = "=3.7.5"
