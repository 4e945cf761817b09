[package]
name = "cloudwatcher"
version = "0.1.0"
edition = "2021"
publish = false

[dependencies]
time = { version = "0.3", features = ["formatting"] }
humantime = "2"
aws-config = "1"
aws-sdk-cloudwatchlogs = "1"
console = "0.15"
ctrlc = "3"
env_logger = "0.11"
futures = "0.3"
gumdrop = "0.8"
tokio = { version = "1", features = ["macros", "rt-multi-thread", "time"] }
