[package]
name = "se621"
version = "0.5.1"
edition = "2021"
publish = false

[dependencies]
clap = "2"
crossbeam = "0.8"
reqwest = { version = "0.11", features = ["blocking", "json"] }
serde = { version = "1", features = ["derive"] }
serde_json = "1"
tokio = { version = "1", features = ["macros", "rt-multi-thread", "time"] }
url = "2"
urlencoding = "2"
