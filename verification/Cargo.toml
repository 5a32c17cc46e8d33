[package]
name = "tega"
version = "0.1.0"
edition = "2021"
publish = false

[dependencies]
anyhow = "1"
clap = { version = "4", features = ["derive"] }
pem = "3"
reqwest = { version = "0.11", default-features = false, features = ["rustls-tls", "json"] }
rustls = "0.21"
rustls-pemfile = "1"
serde = { version = "1", features = ["derive"] }
time = { version = "0.3", features = ["serde-well-known", "macros", "formatting", "parsing"] }
tokio = { version = "1", features = ["macros", "rt", "sync", "time"] }
