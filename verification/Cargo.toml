[package]
name = "multibg-sway"
version = "0.1.0"
edition = "2021"
publish = false

[dependencies]
anyhow = "1"
clap = { version = "4", features = ["derive"] }
env_logger = "0.11"
fast_image_resize = "5"
image = { version = "0.25", default-features = false, features = ["jpeg", "png"] }
libc = "0.2"
log = "0.4"
niri-ipc = "*"
rustix = { version = "0.38", features = ["event", "fs", "pipe"] }
serde = { version = "1", features = ["derive"] }
serde_json = "1"
smithay-client-toolkit = { version = "0.19", default-features = false }
swayipc = "3"
