[package]
name = "devbox"
version = "0.1.0"
edition = "2021"
publish = false

[dependencies]
async-trait = "0.1"
axum = { version = "0.8", features = ["ws"] }
bollard = "0.19"
dashmap = "6"
flate2 = "1"
futures = "0.3"
futures-util = "0.3"
http = "1"
http-body-util = "0.1"
once_cell = "1"
parse-dockerfile = "*"
reqwest = { version = "0.12", default-features = false, features = ["json", "rustls-tls"] }
rusqlite = "0.32"
russh = "0.50"
serde = { version = "1", features = ["derive"] }
serde_json = "1"
ssh-key = "0.6"
tar = "0.4"
tokio = { version = "1", features = ["full"] }
tokio-stream = "0.1"
tokio-util = "0.7"
tower-http = { version = "0.6", features = ["cors", "trace"] }
tracing = "0.1"
tracing-subscriber = "0.3"
utoipa = "5"
uuid = { version = "1", features = ["v4"] }
validator = "0.16"
validator_derive = "0.16"
