[package]
name = "hira"
version = "0.1.0"
edition = "2021"
publish = false

[dependencies]
adler = "=1.0.2"
proc-macro2 = "=1.0.107"
quote = "1"
syn = { version = "2", features = ["full", "extra-traits"] }
serde = { version = "1", features = ["derive"] }
serde_json = "1"
toml = "0.8"
rhai = "1"
