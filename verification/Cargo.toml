[package]
name = "grok_term"
version = "0.1.0"
edition = "2021"
publish = false

[dependencies]
unicode-width = "*"
reqwest = { version = "*", default-features = false, features = ["blocking", "rustls-tls"] }
serde = { version = "1", features = ["derive"] }
serde_json = "1"
termion = "*"
toml = "*"
