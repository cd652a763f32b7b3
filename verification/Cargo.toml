[package]
name = "tiny_melody"
version = "0.1.0"
edition = "2021"
publish = false

[dependencies]
axum = "*"
id3 = "*"
tokio = { version = "*", features = ["full"] }
tower-http = { version = "*", features = ["fs"] }

[dev-dependencies]
serde_json = "*"
