[package]
name = "mods_localizer"
version = "0.1.0"
edition = "2021"
publish = false

[dependencies]
zip = { version = "0.6", default-features = false, features = ["deflate"] }
serde = { version = "1", features = ["derive"] }
serde_json = "1"
toml = "0.8"
regex = "1"
chrono = "0.4"
dirs = "5"
walkdir = "2"
log = "0.4"
thiserror = "1"
