[package]
name = "reflector"
version = "0.1.0"
edition = "2021"
publish = false

[dependencies]
prost = "0.13"
bytes = "1"
tokio = { version = "1", features = ["rt-multi-thread", "macros", "net", "sync", "time", "signal"] }
log = "0.4"
env_logger = "0.11"
serde = { version = "1", features = ["derive"] }
toml = "0.8"
socket2 = "0.5"
nix = { version = "0.29", features = ["socket", "net", "uio"] }
libc = "0.2"
