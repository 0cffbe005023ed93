[package]
name = "pcf2131"
version = "0.1.0"
edition = "2021"
publish = false

[dependencies]
embedded-hal = "1"
chrono = { version = "0.4", default-features = false }
rtcc = "0.3"
