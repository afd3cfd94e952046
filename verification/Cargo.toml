[package]
name = "imglaze"
version = "0.1.0"
edition = "2021"
publish = false

[dependencies]
url = "=2.5.8"
urlencoding = "=2.1.3"
rand = "=0.8.8"
serde = { version = "=1.0.229", features = ["derive"] }
serde_json = "=1.0.154"
metrics = "=0.17.1"
metrics-exporter-prometheus = { version = "=0.6.1", default-features = false }
actix = "=0.13.5"
actix-web = "=4.18.1"
actix-web-actors = "=4.3.1"
actix-cors = "=0.6.5"
actix-files = "=0.6.10"
tokio = { version = "=1.54.1", features = ["sync", "macros", "rt-multi-thread"] }
tokio-stream = "=0.1.19"
futures = "=0.3.34"
anyhow = "=1.0.104"
log = "=0.4.35"
env_logger = "=0.10.2"
dotenv = "=0.15.0"
lazy_static = "=1.5.1"
reqwest = { version = "=0.11.27", default-features = false, features = ["json", "rustls-tls"] }
serde_qs = "=0.8.5"
time = "=0.3.55"
derive_more = "=0.99.20"
sqlx = { version = "=0.6.3", default-features = false, features = ["runtime-tokio-rustls", "postgres", "macros"] }
twitch-irc = { version = "=5.0.1", default-features = false, features = ["transport-tcp-rustls-webpki-roots", "refreshing-token-rustls-webpki-roots"] }
twitch_api2 = { version = "=0.6.1", features = ["twitch_oauth2", "helix", "reqwest"] }
jsonwebtoken = "8"
