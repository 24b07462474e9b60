[package]
name = "callback_bot"
version = "0.1.0"
edition = "2021"
publish = false

[dependencies]
anyhow = "=1.0.104"
async-trait = "=0.1.92"
futures = "=0.3.34"
log = "=0.4.35"
serde = { version = "=1.0.229", features = ["derive"] }
takecell = "=0.1.1"
teloxide = { version = "=0.17.0", default-features = false }
thiserror = "=2.0.21"
tokio = { version = "=1.54.1", features = ["macros", "rt", "rt-multi-thread", "time", "sync"] }
tokio-util = "=0.7.20"
toml = "=1.1.8"
uuid = { version = "=1.29.0", features = ["v4"] }
