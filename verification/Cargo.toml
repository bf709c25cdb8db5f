[package]
name = "ahandd"
version = "0.1.0"
edition = "2021"
publish = false

[dependencies]
url = "2"
base64 = "0.22"
sha2 = "0.10"
ed25519-dalek = { version = "2", features = ["rand_core"] }
rand = "0.8"
serde = { version = "1", features = ["derive"] }
serde_json = "1"
toml = "0.8"
tokio = { version = "1", features = ["full"] }
tokio-tungstenite = "*"
futures-util = "0.3"
gethostname = "*"
dirs = "5"
anyhow = "1"
prost = "0.13"
tracing = "0.1"
uuid = { version = "1", features = ["v4"] }
