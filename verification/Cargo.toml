[package]
name = "stringdriver"
version = "0.1.0"
edition = "2021"
publish = false

[dependencies]
anyhow = "1"
serde = { version = "1", features = ["derive"] }
serde_json = "1"
serde_yaml = "0.9"
serialport = { version = "4", default-features = false }
gethostname = "*"
memmap2 = "*"
gpiocdev = "*"
nalgebra = "*"
rustfft = "*"
log = "0.4"
env_logger = "*"
clap = { version = "4", features = ["derive"] }
chrono = "*"
uuid = { version = "1", features = ["v4"] }
dotenvy = "*"
ctrlc = "*"
