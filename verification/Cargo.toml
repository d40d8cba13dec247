[package]
name = "runner2"
version = "0.1.0"
edition = "2021"
publish = false

[dependencies]
base64 = "*"
serde = { version = "*", features = ["derive"] }
serde_json = "*"
zip = { version = "*", default-features = false, features = ["deflate"] }
reqwest = { version = "*", default-features = false, features = ["blocking", "json", "rustls-tls"] }
directories = "*"
which = "*"
log = "*"
env_logger = "*"
tempfile = "*"
