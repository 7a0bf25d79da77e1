[package]
name = "eplayer"
version = "0.1.0"
edition = "2021"
publish = false

[dependencies]
base64 = "0.22"
language-tags = "0.3"
md-5 = "0.10"
openai_api_rust = "0.1"
reqwest = { version = "0.11", features = ["json", "multipart"] }
serde = { version = "1", features = ["derive"] }
serde_json = "1"
uuid = { version = "1", features = ["v4"] }
youtube-captions = "*"
