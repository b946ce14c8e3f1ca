[package]
name = "persistent_kameo"
version = "0.1.0"
edition = "2021"
publish = false

[dependencies]
url = "*"
postcard = { version = "*", features = ["use-std"] }
serde = { version = "*", features = ["derive"] }
kameo = "*"
anyhow = "*"
