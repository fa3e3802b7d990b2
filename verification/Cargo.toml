[package]
name = "liburuz"
version = "0.1.0"
edition = "2021"
publish = false

[dependencies]
uuid = { version = "=1.29.0", features = ["v4", "serde"] }
zip = { version = "=2.6.1", default-features = false, features = ["deflate"] }
serde = { version = "=1.0.229", features = ["derive"] }
serde_json = "=1.0.154"
serde_yaml = "=0.9.34"
sled = "=0.34.7"
tokio = { version = "=1.54.1", features = ["rt-multi-thread", "macros", "time"] }
futures = "=0.3.34"
warp = { version = "=0.3.7", default-features = false }
reqwest = { version = "=0.12.28", default-features = false, features = ["json"] }
structopt = "=0.3.26"
kube = { version = "=3.1.0", default-features = false, features = ["client"] }
k8s-openapi = { version = "=0.27.1", features = ["latest"] }
