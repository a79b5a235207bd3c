[package]
name = "releasaurus"
version = "0.1.0"
edition = "2021"
publish = false

[dependencies]
semver = "=1.0.28"
next_version = "=0.3.5"
git-conventional = "=1.1.0"
regex = "=1.13.1"
git-url-parse = "=0.4.6"
clap = { version = "=4.6.7", features = ["derive"] }
serde = { version = "=1.0.229", features = ["derive"] }
serde_json = "=1.0.154"
toml = "=1.1.8"
chrono = "=0.4.45"
tera = "1"
