[package]
name = "diario"
version = "0.1.0"
edition = "2021"
publish = false

[dependencies]
sha2 = "0.10"
rand = "0.8"
chrono = "0.4"
comrak = { version = "*", default-features = false }
ammonia = "*"
serde_urlencoded = "0.7"
serde = { version = "1", features = ["derive"] }
serde_json = "1"
axum = "0.8"
tokio = { version = "1", features = ["full"] }
tower-http = { version = "0.6", features = ["cors", "trace"] }
rusqlite = { version = "*", features = ["bundled"] }
r2d2 = "0.8"
r2d2_sqlite = "*"
tracing = "0.1"
tracing-subscriber = { version = "0.3", features = ["env-filter"] }
clap = { version = "4", features = ["derive", "env"] }
anyhow = "1"
thiserror = "*"
uuid = { version = "1", features = ["v4"] }
reqwest = { version = "0.12", default-features = false, features = ["json"] }
rmcp = { version = "*", features = ["server", "macros", "transport-io"] }
