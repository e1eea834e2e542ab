[package]
name = "adoptopenjdk_installer"
version = "0.1.0"
edition = "2021"
publish = false

[dependencies]
colored = "2"
serde = { version = "1", features = ["derive"] }
serde_json = "1"
reqwest = { version = "0.11", features = ["json"] }
tokio = { version = "1", features = ["full"] }
clap = "2"
flate2 = "1"
tar = "0.4"
indicatif = "0.15"
whoami = "1"
