[package]
name = "rust_im"
version = "0.1.0"
edition = "2021"
publish = false

[dependencies]
bytes = "1"
prost = { version = "0.14", features = ["derive"] }
dashmap = "6"
tokio = { version = "1", features = ["full"] }
tokio-util = { version = "0.7", features = ["codec"] }
futures = "0.3"
axum = { version = "0.7", features = ["ws"] }
serde = { version = "1", features = ["derive"] }
serde_json = "1"
toml = "0.8"
anyhow = "1"
thiserror = "2"
tracing = "0.1"
tracing-subscriber = { version = "0.3", features = ["env-filter"] }
redis = { version = "0.27", features = ["tokio-comp"] }
rdkafka = "0.37"
etcd-client = "0.14"
tonic = "0.14"
tonic-prost = "0.14"
sqlx = { version = "0.8", default-features = false, features = ["mysql", "runtime-tokio", "chrono", "macros"] }
bcrypt = "0.15"
jsonwebtoken = "9"
chrono = { version = "0.4", features = ["serde"] }
once_cell = "1"
