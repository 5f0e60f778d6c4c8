[package]
name = "base_station_link"
version = "0.1.0"
edition = "2021"
publish = false

[dependencies]
chrono = { version = "0.4", default-features = false, features = ["clock"] }
crc = "3"
ring-channel = "*"
serialport = { version = "4", default-features = false }
