[package]
name = "air_workspace"
version = "0.1.0"
edition = "2021"
publish = false

[dependencies]
ignore = "0.4"
anyhow = "1"
thiserror = "*"
etcetera = "*"
rustc-hash = "*"
itertools = "*"
colored = "*"
tracing = "*"
url = "2"
serde = { version = "1", features = ["derive"] }
serde_json = "1"
uuid = { version = "1", features = ["v4"] }
tower-lsp = "0.20"
tokio = { version = "1", features = ["rt-multi-thread", "macros", "io-std"] }
