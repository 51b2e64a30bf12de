[package]
name = "esp_hal_embassy"
version = "0.1.0"
edition = "2021"
publish = false

[dependencies]
critical-section = "=1.2.0"
embassy-time-driver = "=0.1.0"

[dev-dependencies]
critical-section = { version = "=1.2.0", features = ["std"] }
