[package]
name = "murundiri"
version = "1.0.0"
edition = "2021"
publish = false

[dependencies]
clap = "=3.2.25"
dotenv = "=0.15.0"
form_urlencoded = "=1.2.2"
hyper = { version = "=0.14.32", features = ["full"] }
hyper-reverse-proxy = "=0.5.1"
portpicker = "=0.1.1"
r2d2 = "=0.8.10"
redis = { version = "=0.21.8", features = ["r2d2", "cluster"] }
regex = "=1.13.1"
serde = { version = "=1.0.229", features = ["derive"] }
serde_json = "=1.0.154"
serde_yaml = "=0.8.26"
tokio = { version = "=1.54.1", features = ["full"] }
