[package]
name = "revgeo_core"
version = "0.1.0"
edition = "2021"
publish = false

[dependencies]
reverse_geocoder = "*"
axum = "*"
tokio = { version = "*", features = ["sync", "net", "rt-multi-thread", "macros"] }
serde = { version = "*", features = ["derive"] }
serde_json = "*"
