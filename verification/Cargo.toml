[package]
name = "ferrous"
version = "0.1.0"
edition = "2021"
publish = false

[dependencies]
anyhow = "1"
clap = { version = "4", features = ["derive"] }
dirs = "6"
portable-pty = "0.9"
postcard = { version = "1", default-features = false, features = ["alloc"] }
reqwest = { version = "0.12", default-features = false, features = ["blocking", "rustls-tls"] }
secrecy = "0.10"
serde = { version = "1", features = ["derive"] }
serde_json = "1"
sha2 = "0.10"
thiserror = "2"
toml = "0.9"
tracing = "0.1"
tracing-subscriber = { version = "0.3", features = ["env-filter"] }
tungstenite = "0.28"
wasmtime = { version = "47", default-features = false, features = ["component-model", "cranelift", "runtime", "std", "async"] }
wasmtime-wasi = { version = "47", default-features = false, features = ["p2"] }
