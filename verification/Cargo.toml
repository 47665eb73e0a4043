[package]
name = "anti_ripper"
version = "0.1.0"
edition = "2021"
publish = false

[dependencies]
serde = { version = "*", features = ["derive"] }
serde_json = "*"
rusqlite = { version = "*", features = ["bundled"] }
chrono = "*"
dirs = "*"
reqwest = { version = "*", default-features = false, features = ["blocking", "json", "rustls-tls"] }
