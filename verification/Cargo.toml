[package]
name = "nicoyomi"
version = "0.1.0"
edition = "2021"
publish = false

[dependencies]
regex = "1"
natord = "1"
serde = { version = "1", features = ["derive"] }
serde_derive = "1"
serde_json = "1"
serde_urlencoded = "0.7"
actix-web = "4"
actix-files = "0.6"
awc = { version = "3", features = ["rustls"] }
rustls = "0.20"
rustls-native-certs = "0.6"
tokio = { version = "1", features = ["fs", "process", "sync", "time", "io-util", "rt", "macros"] }
futures = "0.3"
bytes = "1"
itertools = "0.10"
lazy_static = "1"
log = "0.4"
slog = "2"
slog-async = "2"
slog-scope = "4"
slog-stdlog = "4"
slog-term = "2"
thiserror = "1"
askama = "0.12"
askama_actix = "0.14"
