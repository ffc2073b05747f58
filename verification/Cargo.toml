[package]
name = "chatgpt_oauth"
version = "0.1.0"
edition = "2021"
publish = false

[dependencies]
agent-client-protocol = "*"
anyhow = "1"
base64 = "0.22"
rand = "0.9"
reqwest = { version = "0.12", default-features = false, features = ["json", "rustls-tls"] }
serde = { version = "1", features = ["derive"] }
serde_json = "1"
sha2 = "0.10"
tokio = { version = "1", features = ["net", "io-util", "time", "macros", "rt", "sync"] }
tracing = "0.1"
url = "2"
urlencoding = "2"
webbrowser = "1"
