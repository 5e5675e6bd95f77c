[package]
name = "topsongs"
version = "0.1.0"
edition = "2021"
publish = false

[dependencies]
anyhow = "1"
clap = { version = "4", features = ["derive"] }
clipboard-win = "5"
cursive = { version = "0.21", default-features = false, features = ["crossterm-backend"] }
dialoguer = "0.11"
kdl = "6"
regex = "1"
reqwest = "0.12"
serde = { version = "1", features = ["derive"] }
serde_json = "1"
tokio = { version = "1", features = ["macros", "rt-multi-thread"] }
