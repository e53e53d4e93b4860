[package]
name = "battery_notify"
version = "0.1.0"
edition = "2021"
publish = false

[dependencies]
anyhow = "*"
cancellable-timer = "*"
confy = "*"
ctrlc = "*"
env_logger = "*"
log = "*"
notify-rust = "*"
once_cell = "*"
sd-notify = "*"
serde = { version = "*", features = ["derive"] }
x11rb = { version = "*", features = ["randr"] }
zbus = "*"
