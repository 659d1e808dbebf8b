[package]
name = "monocle_cli"
version = "0.1.0"
edition = "2021"
publish = false

[dependencies]
bgpkit-broker = "0.7"
bgpkit-parser = { version = "0.10", features = ["serde"] }
chrono = "0.4"
clap = { version = "4", features = ["derive"] }
dotenvy = "0.15"
humantime = "2"
indicatif = "0.17"
ipnet = "2"
json_to_table = "*"
oneio = "0.16"
radar-rs = "*"
rayon = "1"
serde_json = "1"
tabled = "*"
tracing = "0.1"
tracing-subscriber = "0.3"
