[package]
name = "shell_backend"
version = "0.1.0"
edition = "2021"
publish = false

[dependencies]
log = "=0.4.34"
reqwest = "=0.12.28"
serde = { version = "=1.0.229", features = ["derive"] }

[dev-dependencies]
mockito = "1"
tokio = { version = "1", features = ["rt", "net", "time"] }
