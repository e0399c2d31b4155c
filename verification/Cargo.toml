[package]
name = "subaddr_filter"
version = "0.1.0"
edition = "2021"
publish = false

[dependencies]
anyhow = "1"
clap = { version = "4", features = ["derive"] }
data-encoding = "2"
hmac = "0.12"
sha2 = "0.10"
