[package]
name = "ferro"
version = "0.1.0"
edition = "2021"
publish = false

[dependencies]
anyhow = "*"
clap = { version = "*", features = ["derive"] }
env_logger = "*"
futures-util = "*"
indicatif = "*"
log = "*"
reqwest = { version = "*", default-features = false, features = ["cookies"] }
reqwest_cookie_store = "*"
serde = { version = "*", features = ["derive"] }
serde_json = "*"
sys-locale = "*"
tokio = { version = "*", features = ["macros", "rt-multi-thread", "time", "fs", "io-util"] }
uuid = { version = "*", features = ["v4"] }
