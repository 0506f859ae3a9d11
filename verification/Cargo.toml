[package]
name = "t3_update_version"
version = "0.1.0"
edition = "2021"
publish = false

[dependencies]
http = "0.2"
rust-ini = "0.19"
axum = "0.6"
tokio = { version = "1", features = ["macros", "rt-multi-thread", "fs"] }
tower = { version = "0.4", features = ["timeout"] }
tower-http = { version = "0.4", features = ["cors", "trace"] }
tracing = "0.1"
tracing-subscriber = { version = "0.3", features = ["env-filter"] }
serde = { version = "1", features = ["derive"] }
lazy_static = "1"
