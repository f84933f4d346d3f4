[package]
name = "cargopit"
version = "0.4.0"
edition = "2021"
publish = false

[dependencies]
libc = "0.2"
mlua = { version = "0.10", features = ["lua54", "vendored"] }
libpulse-binding = "2"
serialport = { version = "4", default-features = false }
