[package]
name = "mspm0-can"
version = "0.1.0"
edition = "2021"
publish = false

[dependencies]
cortex-m = "0.7"
defmt = "1.0"
embedded-can = "0.4"
