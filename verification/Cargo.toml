[package]
name = "justone"
version = "0.1.0"
edition = "2021"
publish = false

[dependencies]
clap = "2"
futures = "0.3"
rand = "0.7"
serde = { version = "1", features = ["derive"] }
serde_derive = "1"
serde_json = "1"
slog = "2"
slog-async = "2"
slog-scope = "4"
slog-term = "2"
tokio = { version = "0.2", features = ["full"] }
warp = { version = "0.2", features = ["tls"] }
