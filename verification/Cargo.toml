[package]
name = "kube_podlog"
version = "0.1.0"
edition = "2021"
publish = false

[dependencies]
anstyle = "=1.0.14"
clap = { version = "=4.6.7", features = ["derive"] }
futures = "=0.3.34"
k8s-openapi = { version = "=0.27.1", features = ["latest"] }
kube = "=3.1.0"
kube-runtime = "=3.1.0"
time = { version = "=0.3.55", features = ["formatting"] }
tokio = { version = "=1.53.2", features = ["full"] }
tokio-util = "=0.7.19"
tracing = "=0.1.44"
tracing-subscriber = "=0.3.23"

[dev-dependencies]
serde_json = "=1.0.151"
