[package]
name = "slv_rust"
version = "0.3.0"
edition = "2021"
publish = false

[dependencies]
uuid = { version = "=1.29.0", features = ["v4"] }
md5 = "=0.7.0"
keyring = "=3.6.3"
tokio = { version = "=1.54.1", features = ["net", "io-util", "rt", "time"] }
serde = { version = "=1.0.229", features = ["derive"] }
quick-xml = "=0.31.0"
url = "=2.5.8"
roxmltree = "=0.20.0"
serde_json = "1"
