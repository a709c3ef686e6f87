[package]
name = "pincers"
version = "0.1.0"
edition = "2021"
publish = false

[dependencies]
anyhow = "1"
bounded-integer = "*"
clap = { version = "4", features = ["derive"] }
fs2 = "0.4"
os_pipe = "1"
serde = { version = "1", features = ["derive"] }
spdlog-rs = "*"
tokio = { version = "1", features = ["full"] }
tokio-unix-ipc = "*"
tokio-util = "0.7"
wayland-client = "0.31"
wayland-protocols-wlr = { version = "0.3", features = ["client"] }
