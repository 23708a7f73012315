[package]
name = "kopium"
version = "0.1.0"
edition = "2021"
publish = false

[dependencies]
anyhow = "1"
clap = { version = "4", features = ["derive", "cargo"] }
clap_complete = "4"
env_logger = "*"
heck = "0.5"
k8s-openapi = { version = "*", features = ["latest"] }
kube = "*"
libc = "0.2"
log = "0.4"
quote = "1"
regex = "1"
serde = { version = "1", features = ["derive"] }
serde_json = "1"
serde_yaml = "0.9"
syn = "2"
tokio = { version = "1", features = ["macros", "rt-multi-thread"] }
typed-builder = "*"
