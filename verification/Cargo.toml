[package]
name = "terminux"
version = "0.1.0"
edition = "2021"
publish = false

[dependencies]
anyhow = "1"
async-channel = "2"
async-trait = "0.1"
chrono = "0.4"
dirs = "5"
env_logger = "0.11"
gtk4 = { version = "0.9", features = ["v4_12"] }
libadwaita = { version = "0.7", features = ["v1_4"] }
log = "0.4"
rand = "0.8"
rusqlite = "0.32"
russh = "0.45"
russh-keys = "0.45"
serde = { version = "1", features = ["derive"] }
shellexpand = "3"
tokio = { version = "1", features = ["full"] }
toml = "0.8"
uuid = { version = "1", features = ["v4"] }
vte4 = "0.8"
