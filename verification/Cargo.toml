[package]
name = "rss_digest"
version = "0.1.0"
edition = "2021"
publish = false

[dependencies]
anyhow = "1"
chrono = "0.4"
chrono-tz = "0.10"
clap = { version = "4", features = ["derive"] }
dotenvy = "0.15"
env_logger = "0.11"
lettre = { version = "0.11", default-features = false, features = ["builder", "smtp-transport", "pool", "hostname", "rustls-tls"] }
log = "0.4"
md5 = "0.7"
pulldown-cmark = "0.13"
qdrant-client = { version = "1", default-features = false, features = ["serde"] }
reqwest = { version = "0.12", default-features = false, features = ["json", "rustls-tls"] }
serde = { version = "1", features = ["derive"] }
serde_json = "1"
tokio = { version = "1", features = ["macros", "rt-multi-thread", "time"] }
