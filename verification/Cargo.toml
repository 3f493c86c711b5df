[package]
name = "acre"
version = "0.1.0"
edition = "2021"
publish = false

[dependencies]
sha2 = "0.10"
hex = "0.4"
uuid = { version = "1", features = ["v4"] }
unicode-width = "0.2"
unicode-segmentation = "1"
chrono = "0.4"
dirs = "6"
serde = { version = "1", features = ["derive"] }
serde_json = "1"
clap = { version = "4", features = ["derive"] }
crossterm = "0.28"
fs4 = "0.13"
process-wrap = { version = "8", features = ["std"] }
wait-timeout = "0.2"
tempfile = "3"

[dev-dependencies]
vt100 = "0.15"
