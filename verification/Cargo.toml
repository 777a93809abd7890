[package]
name = "hostcall"
version = "0.1.0"
edition = "2021"
publish = false

[dependencies]
anyhow = "1"
arrayvec = "0.7"
rmp-serde = "1"
serde = { version = "1", features = ["derive"] }
