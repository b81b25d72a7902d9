[package]
name = "netweft"
version = "0.2.0"
edition = "2021"
publish = false

[dependencies]
anyhow = "1"
clap = { version = "4", features = ["derive", "env"] }
ipnet = { version = "2", features = ["serde"] }
serde = { version = "1", features = ["derive"] }
toml = "*"
