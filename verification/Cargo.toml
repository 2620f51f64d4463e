[package]
name = "svt_crawler"
version = "0.1.0"
edition = "2021"
publish = false

[dependencies]
clap = "=3.2.25"
reqwest = { version = "=0.11.27", features = ["blocking", "json"] }
serde_json = { version = "=1.0.154", features = ["preserve_order"] }
