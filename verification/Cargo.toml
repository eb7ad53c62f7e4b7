[package]
name = "lamuralla"
version = "0.1.0"
edition = "2021"
publish = false

[dependencies]
uuid = { version = "=1.27.0", features = ["v4"] }
serde = { version = "1", features = ["derive"] }
serde_json = "1"
tokio = { version = "1", features = ["rt-multi-thread", "macros", "sync", "net", "io-util"] }
tokio-stream = "*"
axum = { version = "=0.8.9", features = ["multipart"] }
tower-http = { version = "*", features = ["cors"] }
neo4rs = "=0.8.0"
rig-core = { version = "=0.44.0", features = ["reqwest"] }
tera = "=2.4.0"
dotenvy = "*"
lopdf = "=0.45.0"
zip = "=8.6.0"
xml-rs = "=1.0.0"
