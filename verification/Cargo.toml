[package]
name = "lrgp"
version = "0.2.0"
edition = "2021"
publish = false

[dependencies]
rmpv = "1"
serde = { version = "1", features = ["derive"] }
serde_json = "1"
rusqlite = { version = "*", features = ["bundled"] }
hex = "0.4"
rand = "0.8"
thiserror = "1"
