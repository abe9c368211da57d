[package]
name = "xfat"
version = "0.1.0"
edition = "2021"
publish = false

[dependencies]
bincode = "1.3.3"
serde = { version = "1", features = ["derive"] }
serde-big-array = "0.5"
colored = "2"
uuid = "1"
