[package]
name = "nos3_io"
version = "0.1.0"
edition = "2021"
publish = false

[dependencies]
serial = "=0.4.0"
i2c-linux = "=0.1.2"
toml = "=0.5.11"
