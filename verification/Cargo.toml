[package]
name = "agentgateway"
version = "0.1.0"
edition = "2021"
publish = false

[dependencies]
anyhow = "1"
async-openai = { version = "*", default-features = false, features = ["realtime-types"] }
async-trait = "0.1"
axum-core = "0.5"
bytes = "1"
chrono = { version = "0.4", features = ["serde"] }
http = "1"
http-body = "1"
http-body-util = "0.1"
itertools = "0.14"
parking_lot = "0.12"
pin-project-lite = "0.2"
prost-wkt-types = "*"
quick_cache = "*"
regex = "1"
serde = { version = "1", features = ["derive"] }
serde_json = "1"
sqlx = { version = "0.8", default-features = false, features = ["runtime-tokio", "sqlite", "postgres", "chrono", "json"] }
thiserror = "2"
tokio = { version = "1", features = ["full"] }
tokio_sse_codec = "*"
tokio-stream = "0.1"
tokio-util = { version = "0.7", features = ["codec"] }
tonic = "*"
tower = "*"
tracing = "0.1"
uuid = { version = "1", features = ["v4"] }
websocket-sans-io = "*"
