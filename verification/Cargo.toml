[package]
name = "fsinject"
version = "0.1.0"
edition = "2021"
publish = false

[dependencies]
serde = { version = "*", features = ["derive"] }
serde_json = "*"
libc = "*"
fuser = "*"
tokio = { version = "*", features = ["rt-multi-thread"] }
