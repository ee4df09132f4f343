[package]
name = "mulink_dsp"
version = "0.1.0"
edition = "2021"
publish = false

[dependencies]
num = "0.4"
rustfft = "6"
crossbeam = "0.8"
hound = "3"
anyhow = "1"
clap = { version = "4", features = ["derive"] }
rand = "0.9"
log = "0.4"
env_logger = "0.11"
