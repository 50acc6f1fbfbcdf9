[package]
name = "kolekk"
version = "0.1.0"
edition = "2021"
publish = false

[dependencies]
http = "0.2"
md5 = "=0.7.0"
serde = { version = "=1.0.229", features = ["derive"] }
serde_json = "=1.0.154"
tantivy = "=0.19.2"
thiserror = "=1.0.69"
uuid = { version = "=1.29.0", features = ["v4"] }
