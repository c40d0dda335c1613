[package]
name = "snazy"
version = "0.1.0"
edition = "2021"
publish = false

[dependencies]
chrono = "0.4"
chrono-tz = "*"
clap = { version = "4", features = ["derive", "env"] }
clap_complete = "4"
color-print = "0.3"
regex = "1"
serde_json = "1"
yansi = "1"
