[package]
name = "jira_reporter"
version = "0.1.0"
edition = "2021"
publish = false

[dependencies]
flexi_logger = "0.17"
futures = "0.1"
hex = "0.4"
hyper = "0.12"
hyper-proxy = "0.5"
itertools = "0.10"
log = "0.4"
rpassword = "5.0"
serde = { version = "1", features = ["derive"] }
serde_json = "1"
tokio-core = "0.1"
typed-headers = "0.1"
