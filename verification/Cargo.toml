[package]
name = "rahgozar"
version = "0.1.0"
edition = "2021"
publish = false

[dependencies]
bytes = "1"
directories = "5"
eframe = { version = "0.28", default-features = false, features = ["glow", "default_fonts"] }
rand = "0.8"
serde = { version = "1", features = ["derive"] }
serde_json = "1"
time = { version = "0.3", features = ["formatting", "macros"] }
tokio = { version = "1", features = ["rt-multi-thread", "net", "io-util", "time", "sync", "macros"] }
tokio-rustls = { version = "0.26", default-features = false, features = ["ring", "tls12", "logging"] }
tracing = "0.1"
tracing-subscriber = { version = "0.3", features = ["env-filter"] }
webpki-roots = "0.26"
