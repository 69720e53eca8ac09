[package]
name = "firmware_core"
version = "0.1.0"
edition = "2021"
publish = false

[dependencies]
heapless = "0.9"
embedded-storage = "0.3"
cortex-m = "0.7"
static_cell = "2"
spi-memory = "0.2"
embassy-sync = "*"
embassy-futures = "*"
