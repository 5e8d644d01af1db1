[package]
name = "imagewall"
version = "0.1.0"
edition = "2021"
publish = false

[dependencies]
anyhow = "*"
async-channel = "*"
chrono = "*"
clap = { version = "*", features = ["derive"] }
dotenvy = "*"
futures-util = "*"
indicatif = "*"
reqwest = { version = "*", default-features = false, features = ["json", "rustls-tls"] }
serde = { version = "*", features = ["derive"] }
serde-this-or-that = "*"
tokio = { version = "*", features = ["macros", "rt-multi-thread", "fs"] }
