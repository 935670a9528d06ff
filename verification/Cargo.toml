[package]
name = "emotibit_sync"
version = "0.1.0"
edition = "2021"
publish = false

[dependencies]
anyhow = "1"
emotibit-data = "0.1.1"
