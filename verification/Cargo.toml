[package]
name = "hachi"
version = "0.1.0"
edition = "2021"
publish = false

[dependencies]
rand = "0.8"
serde = { version = "1", features = ["derive"] }
toml = "*"
dirs = "*"
notan = { version = "*", features = ["egui", "draw", "random"] }
notan_extra = "*"
rfd = "*"
pollster = "*"
async-mutex = "*"
clap = { version = "4", features = ["derive"] }
