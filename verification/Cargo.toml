[package]
name = "varlock-lsp"
version = "0.1.0"
edition = "2021"
publish = false

[dependencies]
regex-lite = "0.1"
url = "2"
tower-lsp = "0.20"
tokio = { version = "1", features = ["io-std", "macros", "rt-multi-thread", "sync"] }
