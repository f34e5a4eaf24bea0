[package]
name = "tuition_billing"
version = "0.1.0"
edition = "2021"
publish = false

[dependencies]
chrono = "0.4"
rusqlite = { version = "0.37", features = ["bundled"] }
