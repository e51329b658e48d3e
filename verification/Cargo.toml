[package]
name = "foxus"
version = "0.1.0"
edition = "2021"
publish = false

[dependencies]
rusqlite = { version = "*", features = ["bundled"] }
serde = { version = "*", features = ["derive"] }
serde_json = "*"
thiserror = "*"
directories = "*"
x11rb = { version = "*", features = ["screensaver"] }
