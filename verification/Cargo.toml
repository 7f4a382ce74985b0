[package]
name = "m_reader"
version = "0.1.0"
edition = "2021"
publish = false

[dependencies]
time = "0.3"
pulldown-cmark = { version = "0.13", default-features = false, features = ["html"] }
serde = { version = "1", features = ["derive"] }
serde_json = "1"
directories = "6"
notify = "8"
tokio = { version = "1", features = ["time"] }
rfd = { version = "0.15", default-features = false }
objc2 = "0.5"
