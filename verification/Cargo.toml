[package]
name = "pattern_guard"
version = "0.2.0"
edition = "2021"
publish = false

[dependencies]
lru = "0.12"
serde = { version = "1", features = ["derive"] }
toml = "0.8"
thiserror = "1"
log = "0.4"
