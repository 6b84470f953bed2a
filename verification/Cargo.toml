[package]
name = "sample_site"
version = "0.1.0"
edition = "2021"
publish = false

[dependencies]
maud = { version = "0.26", features = ["axum"] }
markdown = "1"
axum = "0.7"
sqlx = { version = "0.7", default-features = false, features = ["runtime-tokio", "postgres", "macros"] }
tokio = { version = "1", features = ["macros", "rt-multi-thread", "net"] }
tower = "0.4"
tower-http = { version = "0.5", features = ["fs", "trace"] }
tracing = "0.1"
tracing-subscriber = "0.3"
dotenv = "0.15"
serde = { version = "1", features = ["derive"] }
clerk-rs = "*"
