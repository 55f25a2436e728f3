[package]
name = "doris_resource_topn"
version = "0.1.0"
edition = "2021"
publish = false

[dependencies]
base64 = "0.21"
clap = "3.2"
prettytable-rs = "0.10"
rand = "0.8"
reqwest = { version = "0.11", default-features = false, features = ["json"] }
rpassword = "7"
scraper = "*"
serde = { version = "1", features = ["derive"] }
tokio = { version = "1", features = ["macros", "rt-multi-thread"] }
