[package]
name = "llm_wrapper"
version = "0.1.0"
edition = "2021"
publish = false

[dependencies]
url = "=2.5.8"
serde_json = "=1.0.154"
tiktoken-rs = "=0.12.1"
tokenizers = "=0.23.2"
hf-hub = { version = "=0.5.0", default-features = false, features = ["tokio"] }
uuid = { version = "=1.29.0", features = ["v4"] }
liquid = "0.26"
kstring = "=2.0.2"
