[package]
name = "chunked_ops"
version = "0.1.0"
edition = "2021"
publish = false

[dependencies]
arrow2 = { version = "0.17", default-features = false }
serde = { version = "1", features = ["derive"] }
