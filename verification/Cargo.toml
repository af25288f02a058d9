[package]
name = "bbscript_db"
version = "0.1.0"
edition = "2021"
publish = false

[dependencies]
bimap = { version = "=0.6.3", features = ["serde"] }
ron = "=0.12.2"
serde = { version = "=1.0.229", features = ["derive"] }
