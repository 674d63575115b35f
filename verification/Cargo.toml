[package]
name = "zero_copy_model_runner"
version = "0.1.0"
edition = "2021"
publish = false

[dependencies]
axum = "0.7"
clap = { version = "4", features = ["derive"] }
libc = "0.2"
memmap2 = "0.9"
nix = { version = "0.29", features = ["ioctl", "fs", "mman"] }
rayon = "1"
serde = { version = "1", features = ["derive"] }
serde_json = "1"
thiserror = "1"
tokio = { version = "1", features = ["full"] }
tokio-stream = "0.1"
