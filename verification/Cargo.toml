[package]
name = "terrawrap"
version = "0.1.0"
edition = "2021"
publish = false

[dependencies]
hcl-rs = "=0.19.8"
reqwest = { version = "=0.13.5", default-features = false, features = ["blocking"] }
zip = { version = "=8.6.0", default-features = false, features = ["deflate"] }
dirs = "=7.0.0"
tempfile = "=3.27.0"
