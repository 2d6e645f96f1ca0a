[package]
name = "chess_material_studio"
version = "0.1.0"
edition = "2021"
publish = false

[dependencies]
chess = "3.2"
chrono = "0.4"
lopdf = "*"
zstd = "*"
rand = "0.9"
serde = { version = "1", features = ["derive"] }
serde_json = "1"
csv = "1"
tokio = { version = "1", features = ["process", "io-util", "time", "rt", "sync", "macros"] }
diesel = { version = "2", features = ["sqlite"] }
