[package]
name = "debilek_bot"
version = "0.1.0"
edition = "2021"
publish = false

[dependencies]
rand = "0.9"
serde = { version = "1", features = ["derive"] }
serde_json = "1"
walkdir = "2"
dotenv = "0.15"
tokio = { version = "1", features = ["macros", "rt-multi-thread"] }
poise = "0.6"
songbird = "0.5"
reqwest = "0.12"
