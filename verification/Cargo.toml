[package]
name = "stt"
version = "0.1.0"
edition = "2021"
publish = false

[dependencies]
md-5 = "0.10"
reqwest = { version = "0.12", default-features = false, features = ["blocking"] }
serde = { version = "1", features = ["derive"] }
serde_json = "1"
tauri = { version = "2", default-features = false }
vosk = "0.3"
zip = { version = "2", default-features = false, features = ["deflate"] }
