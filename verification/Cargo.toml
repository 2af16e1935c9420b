[package]
name = "clawbot"
version = "0.1.0"
edition = "2021"
publish = false

[dependencies]
async-trait = "=0.1.92"
axum = { version = "0.7", features = ["ws"] }
chrono = { version = "=0.4.45", features = ["serde"] }
dotenvy = "=0.15.7"
dptree = "0.3"
futures-util = "=0.3.34"
hex = "=0.4.3"
hmac = "=0.12.1"
mime_guess = "2"
reqwest = { version = "=0.12.28", default-features = false, features = ["json", "rustls-tls"] }
serde = { version = "=1.0.229", features = ["derive"] }
serde_json = "=1.0.154"
sha2 = "=0.10.9"
sqlx = { version = "=0.7.4", default-features = false, features = ["runtime-tokio", "sqlite"] }
takecell = "=0.1.1"
teloxide = { version = "0.12", default-features = false, features = ["ctrlc_handler", "macros", "rustls"] }
thiserror = "=1.0.69"
tokio = { version = "=1.54.1", features = ["full"] }
tokio-tungstenite = { version = "=0.21.0", features = ["rustls-tls-webpki-roots"] }
toml = "=0.8.23"
tower-http = { version = "0.5", features = ["cors"] }
tracing = "=0.1.44"
tracing-subscriber = { version = "=0.3.23", features = ["env-filter"] }
url = "=2.5.8"
uuid = { version = "=1.29.0", features = ["v4"] }
