[package]
name = "microsandbox_terminal"
version = "0.1.0"
edition = "2021"
publish = false

[dependencies]
axum = { version = "0.8", features = ["ws"] }
base64 = "0.22"
futures = "0.3"
libc = "0.2"
nix = { version = "0.30", features = ["fs", "ioctl", "process", "signal", "term"] }
regex = "1"
serde = { version = "1", features = ["derive"] }
serde_json = "1"
thiserror = "2"
tokio = { version = "1", features = ["full"] }
tokio-tungstenite = "0.26"
tracing = "0.1"
uuid = { version = "1", features = ["v4"] }
