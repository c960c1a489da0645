[package]
name = "gqy"
version = "0.1.0"
edition = "2021"
publish = false

[dependencies]
anyhow = "=1.0.104"
base64 = "=0.22.1"
chrono = "=0.4.45"
futures-util = "=0.3.34"
image = { version = "=0.25.10", default-features = false, features = ["png"] }
libc = "=0.2.191"
rand = "=0.8.8"
ratex-layout = "=0.1.15"
ratex-parser = "=0.1.15"
ratex-render = { version = "=0.1.15", features = ["embed-fonts"] }
ratex-types = "=0.1.15"
rusqlite = "=0.41.1"
serde = { version = "=1.0.229", features = ["derive"] }
serde_json = "=1.0.154"
sha2 = "=0.10.9"
tempfile = "=3.27.0"
tokio = { version = "=1.54.1", features = ["io-util", "macros", "process", "rt", "sync", "time"] }
tracing = "=0.1.44"
