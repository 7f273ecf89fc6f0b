[package]
name = "triviabot"
version = "0.1.0"
edition = "2021"
publish = false

[dependencies]
htmlescape = "*"
rand = "*"
serde = { version = "*", features = ["derive"] }
serde_json = "*"
url = "*"
reqwest = { version = "*", default-features = false, features = ["blocking", "rustls-tls"] }
