[package]
name = "jrs"
version = "0.1.0"
edition = "2021"
publish = false

[dependencies]
toml = { version = "*", features = ["preserve_order"] }
zip = { version = "*", default-features = false, features = ["deflate"] }
