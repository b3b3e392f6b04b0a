[package]
name = "flick_sync"
version = "0.1.0"
edition = "2021"
publish = false

[dependencies]
bytes = "=1.12.1"
http = "=1.5.0"
uuid = "=1.29.0"
mime = "=0.3.17"
url = "=2.5.8"
tokio = { version = "=1.54.1", features = ["rt-multi-thread", "net", "time", "macros", "sync"] }
regex = "=1.13.1"
xml-rs = "0.8"
serde_json = "1"
