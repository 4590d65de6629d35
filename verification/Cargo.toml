[package]
name = "ummah"
version = "0.1.0"
edition = "2021"
publish = false

[dependencies]
clap = { version = "*", features = ["derive"] }
tokio = { version = "*", features = ["macros", "rt-multi-thread"] }
reqwest = { version = "*", default-features = false }
dirs-next = "*"
chrono = "*"
rodio = "*"
html-builder = "*"
