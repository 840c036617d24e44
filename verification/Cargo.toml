[package]
name = "tide_clock_lib"
version = "0.1.0"
edition = "2021"
publish = false

[dependencies]
anyhow = "1"
chrono = "0.4"
embedded-graphics = "0.8"
embedded-hal-bus = "*"
epd-waveshare = "*"
gpio-cdev = "*"
linux-embedded-hal = "*"
serde = { version = "1", features = ["derive"] }
serde_json = "1"
spidev = "*"
thiserror = "1"
tokio = { version = "1", features = ["rt-multi-thread"] }
toml = "*"
ureq = "2"
