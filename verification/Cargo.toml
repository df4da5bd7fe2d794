[package]
name = "downapk"
version = "0.1.0"
edition = "2021"
publish = false

[dependencies]
scraper = "*"
reqwest = { version = "0.12", default-features = false, features = ["cookies", "rustls-tls"] }
tokio = { version = "1", features = ["macros", "rt-multi-thread", "fs", "io-util"] }
indicatif = "0.17"
console = "0.15"
clap = { version = "4", features = ["derive"] }
