[package]
name = "superstition"
version = "0.1.0"
edition = "2021"
publish = false

[dependencies]
anyhow = "1"
base64 = "0.22"
blake3 = "1"
chrono = { version = "0.4", default-features = false, features = ["clock", "std"] }
serde = { version = "1", features = ["derive"] }
serde_json = "1"
statrs = "0.17"
thiserror = "1"
ureq = { version = "2", features = ["json"] }
arrow = { version = "53", default-features = false }
parquet = { version = "53", default-features = false, features = ["arrow", "snap"] }
axum = "0.7"
tokio = { version = "1", features = ["macros", "rt-multi-thread", "net"] }
wasmtime = "35"
wasmtime-wasi = "35"
