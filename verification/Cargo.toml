[package]
name = "wallet_portfolio"
version = "0.1.0"
edition = "2021"
publish = false

[dependencies]
bs58 = "=0.5.1"
spl-token = "=9.0.0"
solana-program-pack = "=3.1.0"
serde = { version = "*", features = ["derive"] }
serde_json = "*"
anyhow = "*"
thiserror = "*"
chrono = "*"
dotenvy = "*"
tracing = "*"
tracing-subscriber = "*"
tokio = { version = "*", features = ["full"] }
axum = "*"
tower-http = { version = "*", features = ["cors"] }
reqwest = { version = "*", default-features = false, features = ["json"] }
base64 = "*"
