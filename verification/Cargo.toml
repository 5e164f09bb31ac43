[package]
name = "dfx"
version = "0.1.0"
edition = "2021"
publish = false

[dependencies]
chrono = "0.4"
chrono-tz = "*"
serde = { version = "1", features = ["derive"] }
serde-xml-rs = "*"
