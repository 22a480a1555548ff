[package]
name = "kopiur_controller"
version = "0.1.0"
edition = "2021"
publish = false

[dependencies]
chrono = "=0.4.45"
clap = { version = "=4.6.7", features = ["derive", "env"] }
http = "=1.5.0"
k8s-openapi = { version = "=0.29.0", features = ["latest"] }
kube = { version = "=5.0.0", features = ["runtime", "client"] }
libc = "=0.2.191"
mimalloc = "=0.1.52"
opentelemetry = "=0.33.1"
serde = { version = "=1.0.229", features = ["derive"] }
serde_json = "=1.0.154"
tokio = { version = "=1.54.1", features = ["full"] }
tower = "=0.5.3"
tracing = "=0.1.44"
