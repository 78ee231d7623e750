[package]
name = "shoebill"
version = "0.1.0"
edition = "2021"
publish = false

[dependencies]
kube = { version = "=3.1.0", features = ["runtime", "derive", "client"] }
k8s-openapi = { version = "=0.27.1", features = ["latest"] }
tokio = { version = "=1.53.2", features = ["macros", "rt-multi-thread"] }
futures = "=0.3.34"
actix-web = "=4.15.0"
clap = { version = "=4.6.7", features = ["derive"] }
serde = { version = "=1.0.229", features = ["derive"] }
serde_json = "=1.0.151"
serde_yaml = "=0.9.34"
schemars = "=1.2.2"
thiserror = "=2.0.21"
log = "=0.4.34"
env_logger = "=0.11.11"
anyhow = "=1.0.104"
