[package]
name = "cigale"
version = "0.5.0"
edition = "2021"
publish = false

[dependencies]
chrono = "0.4"
mailparse = "*"
scraper = "*"
regex = "1"
ical = "*"
git2 = { version = "*", default-features = false }
rayon = "1"
reqwest = { version = "0.12", default-features = false, features = ["blocking", "cookies", "rustls-tls"] }
serde = { version = "1", features = ["derive"] }
serde_json = "1"
toml = "*"
dirs = "*"
log = "0.4"
env_logger = "*"
