[package]
name = "fractal_gen"
version = "0.1.0"
edition = "2021"
publish = false

[dependencies]
rand = "0.8"
image = { version = "0.25", default-features = false, features = ["png", "jpeg", "gif", "webp"] }
clap = { version = "4", features = ["derive"] }
csv = "1"
env_logger = "0.11"
futures = "0.3"
log = "0.4"
rusoto_core = { version = "0.48", default-features = false, features = ["rustls"] }
rusoto_s3 = { version = "0.48", default-features = false, features = ["rustls"] }
tokio = { version = "1", features = ["full"] }
walkdir = "2"
