[package]
name = "plexel"
version = "0.1.0"
edition = "2021"
publish = false

[dependencies]
chrono = { version = "0.4", default-features = false, features = ["clock", "std"] }
dirs = "*"
hex = "=0.4.3"
image = { version = "0.25", default-features = false, features = ["png"] }
leptess = "*"
rusqlite = { version = "*", features = ["bundled"] }
serde = { version = "1", features = ["derive"] }
serde_json = "1"
sha2 = "=0.10.9"
tokio = { version = "1", features = ["time"] }
xcap = "*"
