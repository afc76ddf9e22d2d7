[package]
name = "sleigh"
version = "0.1.0"
edition = "2021"
publish = false

[dependencies]
rand = "0.8"
axum = { version = "0.7", features = ["multipart"] }
serde = { version = "1", features = ["derive"] }
serde_json = "1"
serde_yml = "*"
toml = "0.8"
cargo-manifest = "*"
jsonwebtoken = "9"
leaky-bucket = "1"
sqlx = { version = "0.8", features = ["runtime-tokio", "postgres", "chrono", "uuid", "migrate"] }
shuttle-axum = "*"
shuttle-runtime = "*"
shuttle-shared-db = { version = "*", features = ["postgres"] }
tower-http = { version = "0.6", features = ["fs"] }
askama = "0.12"
