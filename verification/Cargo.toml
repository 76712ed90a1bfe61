[package]
name = "cfddns"
version = "0.1.0"
edition = "2021"
publish = false

[dependencies]
mac_address = "*"
clap = { version = "*", features = ["derive"] }
directories = "*"
local-ip-address = "*"
reqwest = { version = "*", default-features = false, features = ["rustls-tls", "json"] }
serde = { version = "*", features = ["derive"] }
serde_json = "*"
tokio = { version = "*", features = ["rt", "macros"] }
toml = "*"
