[package]
name = "samovar"
version = "0.1.0"
edition = "2021"
publish = false

[dependencies]
chrono = { version = "0.4", default-features = false, features = ["clock", "std"] }
content_inspector = "*"
glob = "0.3"
random-string = "*"
serde = { version = "1", features = ["derive"] }
serde_json = "1"
