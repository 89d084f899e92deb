[package]
name = "auto_header"
version = "0.1.0"
edition = "2021"
publish = false

[dependencies]
chrono = "0.4"
dirs = "*"
serde = { version = "1", features = ["derive"] }
tokio = { version = "1", features = ["rt-multi-thread", "macros", "io-std", "sync"] }
toml = "*"
tower-lsp = "0.20"
zed_extension_api = "*"
