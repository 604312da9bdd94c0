[package]
name = "phoxal-simulator-webots-controller"
version = "0.1.0"
edition = "2021"
publish = false

[dependencies]
anyhow = "1"
clap = { version = "4", features = ["derive"] }
phoxal-model = "0.65"
tokio = { version = "1", features = ["macros", "rt-multi-thread", "signal", "sync"] }
tracing = "0.1"
tracing-subscriber = { version = "0.3", features = ["env-filter"] }
webots-rs = "0.2"

[dev-dependencies]
serde_json = "1"
