[package]
name = "comtrya"
version = "0.1.0"
edition = "2021"
publish = false

[dependencies]
anyhow = "1"
dirs-next = "2"
serde = { version = "1", features = ["derive"] }
serde_yaml = "0.8"
tera = { version = "1", default-features = false }
tracing = "0.1"
