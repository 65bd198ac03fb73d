[package]
name = "chunk_transfer"
version = "0.1.0"
edition = "2021"
publish = false

[dependencies]
pnet = "*"
tokio = { version = "1", features = ["net", "rt", "rt-multi-thread", "sync"] }
