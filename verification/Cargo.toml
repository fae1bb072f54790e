[package]
name = "rubix_server"
version = "0.1.0"
edition = "2021"
publish = false

[dependencies]
uuid = { version = "1", features = ["v4"] }
chrono = "0.4"
serde = { version = "1", features = ["derive"] }
serde_json = "1"
rusqlite = "*"
r2d2 = "*"
r2d2_sqlite = "*"
postgres = "*"
r2d2_postgres = "*"
anyhow = "1"
thiserror = "*"
tokio = { version = "1", features = ["sync", "time", "rt", "macros"] }
tracing = "0.1"
futures = "0.3"
async-trait = "0.1"
utoipa = "*"
