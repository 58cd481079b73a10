[package]
name = "pregel"
version = "0.1.0"
edition = "2021"
publish = false

[dependencies]
bincode = "=1.3.3"
serde = { version = "=1.0.229", features = ["derive"] }
serde_json = "=1.0.154"
base64 = "=0.22.1"
thiserror = "=1.0.69"
clap = { version = "=4.6.7", features = ["derive"] }
ctrlc = "=3.5.2"
tokio = { version = "=1.54.1", features = ["full"] }
tokio-stream = "=0.1.19"
axum = "=0.7.9"
prometheus = { version = "=0.13.4", default-features = false }
reqwest = { version = "=0.12.28", default-features = false, features = ["blocking", "json"] }
wasmtime = { version = "=46.0.3", default-features = false, features = ["cranelift", "runtime", "std"] }
