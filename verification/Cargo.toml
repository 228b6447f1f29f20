[package]
name = "poubelle"
version = "0.1.0"
edition = "2021"
publish = false

[dependencies]
actix-files = "0.6"
actix-multipart = "0.6"
actix-web = "4"
clap = { version = "4", features = ["derive", "env"] }
env_logger = "0.10"
log = "0.4"
mime = "0.3"
parking_lot = "0.12"
rand = "0.8"
sqids = "0.4"
tokio = { version = "1", features = ["process"] }
