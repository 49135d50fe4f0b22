[package]
name = "seis"
version = "0.1.0"
edition = "2021"
publish = false

[dependencies]
byteorder = "1"
nalgebra = "0.33"
actix-web = { version = "4", default-features = false, features = ["macros"] }
actix-files = "0.6"
env_logger = "0.11"
