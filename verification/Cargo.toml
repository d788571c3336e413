[package]
name = "openring"
version = "0.1.0"
edition = "2021"
publish = false

[dependencies]
ammonia = "4"
clap = { version = "4", features = ["derive", "cargo"] }
clap-verbosity-flag = "2"
csv = "1"
dashmap = "6"
feed-rs = "2"
html-escape = "0.2"
humantime = "2"
indicatif = "0.17"
jiff = { version = "0.1", features = ["serde"] }
miette = { version = "7", features = ["fancy"] }
reqwest = { version = "0.12", default-features = false, features = ["rustls-tls"] }
serde = { version = "1", features = ["derive"] }
tera = { version = "1", default-features = false }
thiserror = "1"
tokio = { version = "1", features = ["rt-multi-thread", "macros"] }
tracing = "0.1"
tracing-log = "0.2"
tracing-subscriber = { version = "0.3", features = ["env-filter"] }
url = { version = "2", features = ["serde"] }
yansi = "1"
