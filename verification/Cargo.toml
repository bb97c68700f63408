[package]
name = "jobsuche"
version = "0.1.0"
edition = "2021"
publish = false

[dependencies]
backon = "*"
base64 = "*"
httpdate = "*"
reqwest = { version = "*", default-features = false, features = ["blocking", "json"] }
reqwest-middleware = "*"
reqwest-retry = "*"
serde = { version = "*", features = ["derive"] }
serde_json = "*"
thiserror = "*"
tracing = "*"
url = "*"
