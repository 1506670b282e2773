[package]
name = "ledger_core"
version = "0.1.0"
edition = "2021"
publish = false

[dependencies]
sha2 = "0.10"
hex = "0.4"
rand = "0.8"
chrono = { version = "0.4", features = ["serde"] }
uuid = { version = "1", features = ["v4"] }
serde = { version = "1", features = ["derive"] }
serde_json = "1"
bcrypt = "0.15"
bson = "2"
mongodb = "2"
actix-web = "4"
dotenv = "0.15"
env_logger = "0.10"
lazy_static = "1"
log = "0.4"
