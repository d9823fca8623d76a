[package]
name = "reddit_video"
version = "0.1.0"
edition = "2021"
publish = false

[dependencies]
inquire = "*"
mp3-duration = "*"
regex = "*"
reqwest = { version = "*", features = ["blocking"] }
serde = { version = "*", features = ["derive"] }
serde_json = "*"
stilo = "*"
toml = "*"
