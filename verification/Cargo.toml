[package]
name = "chat_relay"
version = "0.1.0"
edition = "2021"
publish = false

[dependencies]
bcrypt = "*"
chrono = "0.4"
config = "*"
log = "0.4"
mongodb = { version = "3", features = ["sync"] }
serde = "1"
serde_derive = "1"
serde_json = "1"
simple_logger = "*"
tokio = { version = "1", features = ["macros", "rt-multi-thread", "sync"] }
uuid = { version = "1", features = ["v4"] }
warp = "0.3"
ws = "0.9"
