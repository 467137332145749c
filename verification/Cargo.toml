[package]
name = "object_store_rs"
version = "0.1.0"
edition = "2021"
publish = false

[dependencies]
anyhow = "*"
bytes = "*"
futures = "*"
humansize = "*"
object_store = { version = "*", features = ["gcp"] }
tokio = { version = "*", features = ["macros", "rt-multi-thread"] }
url = "*"
