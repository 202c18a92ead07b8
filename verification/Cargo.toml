[package]
name = "cluster_updater"
version = "0.1.0"
edition = "2021"
publish = false

[dependencies]
semver = { version = "*", features = ["serde"] }
serde = { version = "*", features = ["derive"] }
serde_json = "*"
chrono = { version = "*", features = ["serde"] }
log = "*"
env_logger = "*"
structopt = "*"
kube = "*"
k8s-openapi = { version = "*", features = ["latest"] }
futures = "*"
