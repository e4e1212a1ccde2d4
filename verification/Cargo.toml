[package]
name = "sparker"
version = "0.1.0"
edition = "2021"
publish = false

[dependencies]
sha2 = "*"
serde = { version = "*", features = ["derive"] }
serde_json = "*"
chrono = "*"
tokio = { version = "*", features = ["rt-multi-thread", "macros", "sync", "signal", "time"] }
sea-orm = { version = "*", features = ["sqlx-postgres", "runtime-tokio-rustls", "macros", "with-chrono"] }
dotenv = "*"
env_logger = "*"
log = "*"
thiserror = "*"
