[package]
name = "mara_fed"
version = "0.1.0"
edition = "2021"
publish = false

[dependencies]
serde = { version = "1", features = ["derive"] }
serde_json = "1"
hex = "0.4"
qstring = "0.7"
rusqlite = { version = "0.28", features = ["bundled"] }
curl = { version = "0.4", default-features = false }
zmq = "0.10"
actix-web = "4"
actix-cors = "0.6"
actix-rt = "2"
env_logger = "0.10"
