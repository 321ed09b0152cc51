[package]
name = "dyndns"
version = "0.1.0"
edition = "2021"
publish = false

[dependencies]
anyhow = "1"
aws-config = "*"
aws-sdk-route53 = "*"
chrono = "0.4"
pico-args = "0.5"
serde = { version = "1", features = ["derive"] }
serde_yaml = "0.9"
tokio = { version = "1", features = ["rt-multi-thread"] }
ureq = { version = "2", features = ["json"] }
