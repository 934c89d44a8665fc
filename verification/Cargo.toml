[package]
name = "masterserver"
version = "0.1.0"
edition = "2021"
publish = false

[dependencies]
censor = "0.3"
actix-web = "4"
actix-cors = "0.7"
chrono = "0.4"
colored = "2"
serde = { version = "1", features = ["derive"] }
serde_json = "1"
toml = "0.8"
