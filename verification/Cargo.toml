[package]
name = "ipak"
version = "0.1.0"
edition = "2021"
publish = false

[dependencies]
chrono = { version = "0.4", features = ["serde"] }
regex = "1"
toml = "*"
serde = { version = "1", features = ["derive"] }
serde_yaml = "*"
clap = { version = "4", features = ["derive"] }
env_logger = "*"
log = "0.4"
dialoguer = "*"
termimad = "*"
thiserror = "*"
tempfile = "3"
ignore = "*"
walkdir = "2"
tar = "*"
flate2 = "1"
xz2 = "*"
zstd = "*"
zip = { version = "*", default-features = false, features = ["deflate"] }
ar = "*"
file-format = "*"
