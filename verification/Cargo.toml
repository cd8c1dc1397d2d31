[package]
name = "raffle_engine"
version = "0.1.0"
edition = "2021"
publish = false

[dependencies]
actix-web = { version = "4", features = ["rustls"] }
actix-web-httpauth = "0.8"
chrono = "0.4"
config = { version = "0.13", default-features = false, features = ["toml"] }
env_logger = "0.10"
futures = "0.3"
json = "0.12"
lazy_static = "1"
log = "0.4"
mongodb = "2"
reqwest = { version = "0.11", default-features = false, features = ["rustls-tls"] }
rust_decimal = "1"
rustls = "0.20"
rustls-pemfile = "1"
serde = { version = "1", features = ["derive"] }
snafu = "0.7"
