[package]
name = "rcon_client"
version = "0.1.0"
edition = "2021"

[dependencies]
bytes = "1"
rand = "0.8"
serde = { version = "1", features = ["derive"] }
thiserror = "1"
