[package]
name = "spa_server"
version = "0.1.0"
edition = "2021"
publish = false

[dependencies]
anyhow = "=1.0.104"
axum = "=0.6.20"
mime_guess = "=2.0.5"
rust-embed = { version = "=8.13.0", features = ["interpolate-folder-path"] }
serde = { version = "=1.0.229", features = ["derive"] }
tokio = { version = "=1.54.1", features = ["macros", "rt-multi-thread"] }
tower-http = { version = "=0.4.4", features = ["cors"] }

[dev-dependencies]
serde_json = "=1.0.154"
