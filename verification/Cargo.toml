[package]
name = "i2s_wav"
version = "0.1.0"
edition = "2021"
publish = false

[dependencies]
embedded-sdmmc = "*"
embedded-hal = "*"

[dev-dependencies]
pio = "*"
