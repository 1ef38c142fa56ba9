[package]
name = "hybrid_board"
version = "0.1.0"
edition = "2021"
publish = false

[dependencies]
rand = "0.8"
serde = { version = "1", features = ["derive"] }
serde_json = "1"
anyhow = "1"
crossterm = "*"
chrono = "0.4"
rayon = "1"
tokio = { version = "1", features = ["full"] }
once_cell = "1"
