[package]
name = "interlink"
version = "0.1.0"
edition = "2021"
publish = false

[dependencies]
sha2 = "=0.10.9"
serde = { version = "=1.0.229", features = ["derive"] }
serde_json = "=1.0.154"
base64 = "0.22"
bs58 = "0.5"
ethers-core = { version = "2", default-features = false }
ethers-providers = { version = "2", default-features = false, features = ["ws"] }
reqwest = { version = "0.11", default-features = false, features = ["json"] }
tokio = { version = "1", features = ["rt-multi-thread", "macros", "sync", "time", "net", "io-util"] }
ed25519-dalek = "2"
halo2curves = { version = "*", default-features = false }
