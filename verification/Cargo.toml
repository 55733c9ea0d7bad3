[package]
name = "char_store"
version = "0.1.0"
edition = "2021"
publish = false

[dependencies]
axum = "*"
cuid = "*"
serde = { version = "*", features = ["derive"] }
tokio = { version = "*", features = ["macros", "net", "rt-multi-thread"] }
