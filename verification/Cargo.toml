[package]
name = "gmail_mcp"
version = "0.1.0"
edition = "2021"
publish = false

[dependencies]
anyhow = "*"
base64 = "=0.23.1"
google-gmail1 = "*"
hyper-rustls = "*"
hyper-util = { version = "*", features = ["client-legacy", "http1", "tokio"] }
mime = "*"
mime_guess = "=2.0.5"
tokio = { version = "*", features = ["full"] }
yup-oauth2 = "*"
