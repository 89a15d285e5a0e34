[package]
name = "soundbot"
version = "0.1.0"
edition = "2021"
publish = false

[dependencies]
serenity = { version = "0.11", features = ["voice"] }
songbird = "0.3"
serde_json = "1"
tokio = { version = "1", features = ["macros", "rt-multi-thread", "time"] }
reqwest = "0.11"
chrono = "0.4"
