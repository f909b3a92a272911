[package]
name = "rgd_zbot"
version = "2.0.0"
edition = "2021"
publish = false

[dependencies]
anyhow = "=1.0.104"
base64 = "=0.22.1"
dotenvy = "=0.15.7"
regex = "=1.13.1"
reqwest = { version = "=0.13.5", default-features = false, features = ["form", "json", "rustls"] }
roux = { version = "=2.3.0", default-features = false, features = ["rustls"] }
serde = { version = "=1.0.229", features = ["derive"] }
serde_json = "=1.0.154"
tokio = { version = "=1.54.1", features = ["macros", "rt-multi-thread", "time"] }
tracing = "=0.1.44"
tracing-subscriber = "=0.3.23"
