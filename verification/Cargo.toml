[package]
name = "swimbot"
version = "0.1.0"
edition = "2021"
publish = false

[dependencies]
fern = "*"
humantime = "*"
log = "*"
poise = "0.6"
serde = { version = "1", features = ["derive"] }
serenity = "0.12"
tokio = { version = "1", features = ["full"] }
tokio-postgres = "0.7"
toml = "*"
warp = "0.3"
