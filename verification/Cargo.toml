[package]
name = "hgclient_conf"
version = "0.1.0"
edition = "2021"
publish = false

[dependencies]
fbthrift = "*"
anyhow = "1"
serde = { version = "1", features = ["derive"] }
percent-encoding = "2"
http = "1"
bytes = "1"
