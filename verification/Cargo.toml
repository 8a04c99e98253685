[package]
name = "cloud-storage-job-runner"
version = "0.1.0"
edition = "2021"
publish = false

[dependencies]
async-trait = "0.1"
cloud-storage = { version = "0.11", default-features = false, features = ["rustls-tls", "global-client"] }
mime_guess = "2"
serde = { version = "1", features = ["derive"] }
serde_yaml = "0.9"
structopt = "0.3"
termcolor = "1"
tokio = { version = "1", features = ["rt-multi-thread", "macros"] }
tokio-stream = "0.1"
