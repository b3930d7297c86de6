[package]
name = "gram"
version = "0.1.0"
edition = "2021"
publish = false

[dependencies]
anyhow = "*"
chrono = "*"
dotenv = "*"
grammers-client = "=0.10.0"
grammers-tl-types = { version = "=0.10.0", features = ["impl-serde"] }
sea-orm = { version = "=1.1.20", features = ["sqlx-postgres", "runtime-tokio-rustls", "macros", "with-uuid", "with-chrono", "with-json"] }
serde = { version = "*", features = ["derive"] }
serde_json = "*"
tokio = { version = "*", features = ["full"] }
uuid = { version = "*", features = ["v4"] }
