[package]
name = "matmul_solver"
version = "0.1.0"
edition = "2021"
publish = false

[dependencies]
blake3 = "*"
sha2 = "*"
hex = "*"
half = "*"
serde = { version = "*", features = ["derive"] }
serde_json = "*"
clap = { version = "*", features = ["derive"] }
tokio = { version = "*", features = ["rt-multi-thread", "net", "macros"] }
axum = "*"
tower-http = { version = "*", features = ["cors"] }
