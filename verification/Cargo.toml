[package]
name = "gridstack"
version = "0.1.0"
edition = "2021"
publish = false

[dependencies]
uuid = { version = "1", features = ["v4"] }
serde = { version = "1", features = ["derive"] }
serde_json = "1"
axum = "0.8"
tokio = { version = "1", features = ["rt-multi-thread", "macros", "time", "net"] }
tower-http = { version = "0.6", features = ["trace"] }
tracing = "0.1"
anyhow = "1"
thiserror = "2"
strum = { version = "0.27", features = ["derive"] }
chrono = "0.4"
diesel = { version = "2", features = ["postgres", "r2d2", "chrono", "serde_json", "uuid"] }
