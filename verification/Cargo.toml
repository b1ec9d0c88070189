[package]
name = "twitchbot"
version = "0.1.0"
edition = "2021"
publish = false

[dependencies]
rand = "0.8"
anyhow = "1"
thiserror = "1"
log = "0.4"
pretty_env_logger = "0.5"
dotenv = "0.15"
async-trait = "0.1"
futures = "0.3"
async-rwlock = "1"
tokio = { version = "1", features = ["rt-multi-thread", "macros", "sync"] }
twitch-irc = { version = "5", default-features = false, features = ["transport-ws-rustls-webpki-roots"] }
sea-orm = { version = "0.12", default-features = false, features = ["macros"] }
