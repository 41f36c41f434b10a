[package]
name = "dx-gp21"
version = "0.1.0"
edition = "2021"
publish = false

[dependencies]
heapless = "0.8"
ratatui = "0.29"
crossterm = { version = "0.28", features = ["event-stream"] }
tokio = { version = "1", features = ["rt", "macros", "time"] }
clap = { version = "4", features = ["derive"] }
futures-util = "0.3"
serialport = { version = "4", default-features = false }
thiserror = "2"
critical-section = { version = "1", features = ["std"] }
embedded-io-async = "0.6"
embassy-executor = "0.9"
embassy-nrf = { version = "0.8", features = ["nrf52840", "gpiote", "time-driver-rtc1"] }
