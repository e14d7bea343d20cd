[package]
name = "twitter"
version = "0.1.0"
edition = "2021"
publish = false

[dependencies]
axum = "0.8"
axum-macros = "0.5"
clap = { version = "4", features = ["derive"] }
dirs = "6"
futures-util = "0.3"
indicatif = "0.17"
infer = "*"
jiff = "0.2"
log = "0.4"
oauth1-request = "0.6"
parse_datetime = "*"
reqwest = { version = "0.12", features = ["json", "multipart", "stream"] }
rusqlite = "*"
serde = { version = "1", features = ["derive"] }
serde_json = "1"
tokio = { version = "1", features = ["full"] }
toml = "0.8"
