[package]
name = "telebot"
version = "0.3.0"
edition = "2021"
publish = false

[dependencies]
anyhow = "1"
async-trait = "0.1"
base64 = "0.22"
clap = { version = "4", features = ["derive"] }
futures-util = "0.3"
grammers-client = "*"
grammers-mtsender = "*"
grammers-session = "*"
grammers-tl-types = "*"
image = { version = "0.25", default-features = false, features = ["jpeg", "png", "webp"] }
libsql = { version = "*", default-features = false, features = ["core"] }
pulldown-cmark = { version = "0.13", default-features = false }
rand = "0.9"
reqwest = { version = "0.12", default-features = false, features = ["json", "stream", "rustls-tls"] }
rpassword = "7"
serde = { version = "1", features = ["derive"] }
serde_json = "1"
tempfile = "3"
tokio = { version = "1", features = ["fs", "macros", "rt-multi-thread", "signal", "sync", "time"] }
toml = "0.9"
tracing = "0.1"
tracing-subscriber = { version = "0.3", features = ["env-filter"] }
