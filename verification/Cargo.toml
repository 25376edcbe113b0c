[package]
name = "edge_database"
version = "0.1.0"
edition = "2021"
publish = false

[dependencies]
chrono = "0.4"
rusqlite = { version = "*", features = ["bundled"] }
serde_json = "1"
uuid = { version = "1", features = ["v7"] }
