[package]
name = "rusty_pingus"
version = "0.1.0"
edition = "2021"
publish = false

[dependencies]
chrono = "0.4"
serde = { version = "1", features = ["derive"] }
serde_json = "1"
toml = "0.8"
anyhow = "1"
tokio = { version = "1", features = ["full"] }
tokio-util = "0.7"
tokio-stream = { version = "0.1", features = ["sync"] }
futures-util = "0.3"
axum = "0.7"
sqlx = { version = "0.8", default-features = false, features = ["runtime-tokio", "sqlite"] }
reqwest = { version = "0.12", default-features = false, features = ["rustls-tls"] }
surge-ping = "0.8"
socket2 = { version = "0.5", features = ["all"] }
libc = "0.2"
tracing = "0.1"
tracing-subscriber = { version = "0.3", features = ["env-filter"] }
tracing-appender = "0.2"
clap = { version = "4", features = ["derive"] }
webbrowser = "1"
