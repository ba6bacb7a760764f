[package]
name = "cfd"
version = "0.1.0"
edition = "2021"
publish = false

[dependencies]
x509-parser = "0.15"
reqwest = "0.11"
rustls = "0.21"
webpki-roots = "0.22"
tokio = { version = "1", features = ["full"] }
clap = { version = "4", features = ["derive"] }
prettytable-rs = "0.10"
