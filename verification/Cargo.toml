[package]
name = "embedded_block_io"
version = "0.1.0"
edition = "2021"
publish = false

[dependencies]
aligned = "0.4"
embassy-futures = "0.1"
embedded-hal = "1.0"
embedded-hal-async = "1.0"
embedded-io-async = "0.6"
sdio-host = "0.9"
