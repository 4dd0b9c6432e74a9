[package]
name = "open_transcribe"
version = "0.1.0"
edition = "2021"
publish = false

[dependencies]
actix-cors = "*"
actix-multipart = "*"
actix-web = { version = "*", default-features = false, features = ["macros"] }
anyhow = "*"
clap = { version = "*", features = ["derive"] }
cpal = "*"
env_logger = "*"
futures-util = "*"
log = "*"
reqwest = { version = "*", default-features = false, features = ["multipart", "json"] }
rubato = "*"
serde = { version = "*", features = ["derive"] }
serde_json = "*"
tokio = { version = "*", features = ["macros", "rt-multi-thread"] }
whisper-rs = "*"
