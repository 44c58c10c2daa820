[package]
name = "rsst"
version = "0.1.0"
edition = "2021"
publish = false

[dependencies]
quick-xml = "=0.22.0"
rusqlite = { version = "=0.25.4", features = ["array", "modern_sqlite"] }
reqwest = { version = "=0.11.27", default-features = false, features = ["blocking"] }
json = "=0.12.4"
regex = "=1.13.1"
log = "=0.4.34"
env_logger = "=0.9.3"
