[package]
name = "alas-launcher"
version = "0.1.0"
edition = "2021"
publish = false

[dependencies]
anyhow = "=1.0.104"
base64 = "=0.22.1"
command-group = "=5.0.1"
ctrlc = "=3.5.2"
dirs = "=6.0.0"
nix = { version = "=0.30.1", features = ["signal", "process"] }
openssl-probe = "=0.1.6"
serde = { version = "=1.0.229", features = ["derive"] }
serde_json = "=1.0.154"
serde_yaml = "=0.9.34"
sysinfo = "=0.33.1"
tracing = "=0.1.44"
tracing-subscriber = "=0.3.23"
tungstenite = "=0.30.0"
winapi = { version = "0.3", features = ["wincon"] }
