[package]
name = "feed_sync"
version = "0.1.0"
edition = "2021"
publish = false

[dependencies]
chrono = "*"
feed-rs = "*"
futures = "*"
reqwest = { version = "*", features = ["json"] }
serde = { version = "*", features = ["derive"] }
