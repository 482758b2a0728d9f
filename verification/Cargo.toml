[package]
name = "lcn_core"
version = "0.1.0"
edition = "2021"
publish = false

[dependencies]
serde_json = "=1.0.154"
regex = "=1.13.1"
chrono = "=0.4.45"
chrono-tz = "=0.10.4"
relm4 = { version = "0.9", features = ["libadwaita"] }
gstreamer = "0.23"
gstreamer-audio = "0.23"
mpris-server = "0.8"
reqwest = { version = "0.12", default-features = false, features = ["blocking", "rustls-tls"] }
async-channel = "2"
tracing = "0.1"
tracing-subscriber = { version = "0.3", features = ["env-filter"] }
