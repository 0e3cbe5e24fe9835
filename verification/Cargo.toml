[package]
name = "cagr"
version = "0.1.0"
edition = "2021"
publish = false

[dependencies]
select = "0.6"
reqwest = { version = "0.12", default-features = false, features = ["cookies"] }
tokio = { version = "1", features = ["macros", "rt-multi-thread"] }
futures = "0.3"
serde = { version = "1", features = ["derive"] }
serde_cbor = "0.11"
anyhow = "1"
