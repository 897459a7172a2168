[package]
name = "odcrawler_discovery"
version = "0.1.0"
edition = "2021"
publish = false

[dependencies]
anyhow = "1"
async-std = { version = "1", features = ["attributes"] }
chrono = "0.4"
flate2 = "1"
futures = "0.3"
indicatif = "0.15"
isahc = "0.9"
log = "0.4"
rand = "0.8"
regex = "1"
serde = { version = "1", features = ["derive"] }
serde_json = "1"
shrust = "0.0.7"
simplelog = "0.8"
structopt = "0.3"
subprocess = "0.2"
wither = "0.9"
