[package]
name = "nodeget"
version = "0.1.0"
edition = "2021"
publish = false

[dependencies]
uuid = { version = "1", features = ["serde"] }
url = { version = "2", features = ["serde"] }
sha2 = "0.10"
hex = "0.4"
cron = "*"
serde = { version = "1", features = ["derive"] }
serde_json = "1"
log = "0.4"
tokio = { version = "1", features = ["net", "time", "rt", "macros"] }
jsonrpsee = { version = "*", features = ["server"] }
