[package]
name = "netflex"
version = "0.1.0"
edition = "2021"
publish = false

[dependencies]
mime_guess = "*"
axum = "*"
futures = "*"
tokio = { version = "*", features = ["full"] }
