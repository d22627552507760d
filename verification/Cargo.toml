[package]
name = "mpm"
version = "0.1.0"
edition = "2021"
publish = false

[dependencies]
url = "*"
sha2 = "*"
hex = "*"
serde = { version = "*", features = ["derive"] }
serde_yaml = "*"
subprocess = "*"
compress-tools = "*"
reqwest = { version = "*", default-features = false, features = ["stream"] }
tokio = { version = "*", features = ["macros", "rt-multi-thread"] }
futures-util = "*"
indicatif = "*"
clap = "*"
