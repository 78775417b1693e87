[package]
name = "anki_sched"
version = "0.1.0"
edition = "2021"
publish = false

[dependencies]
rand = "0.9"
serde = { version = "1", features = ["derive"] }
serde_json = "1"
axum = { version = "0.8", default-features = false, features = ["json"] }
