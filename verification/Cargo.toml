[package]
name = "reminder_cli"
version = "0.1.0"
edition = "2021"
publish = false

[dependencies]
anyhow = "=1.0.104"
chrono = { version = "=0.4.45", features = ["serde"] }
clap = { version = "=4.6.7", features = ["derive"] }
cron = "=0.17.0"
dirs = "=7.0.0"
english-to-cron = "=0.1.7"
fs2 = "=0.4.3"
notify-rust = "=4.18.2"
serde = { version = "=1.0.229", features = ["derive"] }
serde_json = "=1.0.154"
tabled = "=0.22.0"
uuid = { version = "=1.29.0", features = ["v4", "serde"] }

[dev-dependencies]
regex = "=1.13.1"
