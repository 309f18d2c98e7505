[package]
name = "dongle"
version = "0.1.0"
edition = "2021"
publish = false

[dependencies]
bt-hci = "=0.10.1"
embassy-futures = "=0.1.2"
embassy-sync = "=0.8.0"
embassy-time = { version = "=0.5.1", features = ["std"] }
heapless = "=0.9.3"
trouble-host = { version = "=0.8.0", features = ["scan", "security"] }
usbd-hid = "=0.10.2"
