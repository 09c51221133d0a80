[package]
name = "dash-evo-tool"
version = "0.1.0"
edition = "2021"
publish = false

[dependencies]
aes-gcm = "=0.10.3"
cbc = "=0.1.2"
futures = "0.3"
rusqlite = { version = "0.37", features = ["bundled"] }
tokio = { version = "1", features = ["rt-multi-thread"] }
tracing = "0.1"
