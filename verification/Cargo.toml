[package]
name = "coav"
version = "0.1.0"
edition = "2021"
publish = false

[dependencies]
rand = "=0.8.8"
rand_chacha = "=0.3.1"
image = { version = "=0.25.10", default-features = false, features = ["png"] }
imageproc = { version = "=0.25.1", default-features = false }
chrono = "=0.4.45"
serde = { version = "=1.0.229", features = ["derive"] }
serde_json = "=1.0.154"
tauri = { version = "=2.12.5", default-features = false }
