[package]
name = "treasury_bridge"
version = "0.1.0"
edition = "2021"
publish = false

[dependencies]
borsh = "1"
prost = "*"
serde = { version = "1", features = ["derive"] }
toml = "*"
