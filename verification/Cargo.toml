[package]
name = "voprf_node"
version = "0.1.0"
edition = "2021"
publish = false

[dependencies]
k256 = "0.13"
sha2 = "0.10"
hex = "0.4"
num-bigint = "0.4"
num-traits = "0.2"
uuid = { version = "1", features = ["v4"] }
once_cell = "1"
serde = { version = "1", features = ["derive"] }
serde_json = "1"
clap = { version = "4", features = ["derive"] }
actix-web = "4"
anyhow = "1"
thiserror = "1"
dotenv = "0.15"
