[package]
name = "moonscale"
version = "0.1.0"
edition = "2021"
publish = false

[dependencies]
tera = { version = "=1.20.1", default-features = false }
serde_yaml = "=0.9.34"
serde = "=1.0.229"
base64 = "=0.22.1"
rand = "=0.8.8"
kube = { version = "=3.1.0", default-features = false, features = ["client", "rustls-tls"] }
k8s-openapi = { version = "=0.27.1", features = ["latest"] }
rocket = { version = "=0.5.1", features = ["json"] }
