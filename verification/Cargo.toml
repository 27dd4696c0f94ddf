[package]
name = "spectrogram"
version = "0.1.0"
edition = "2021"
publish = false

[dependencies]
anyhow = "1"
cpal = "0.15"
crossbeam-channel = "0.5"
crossterm = "0.28"
num-traits = "0.2"
ratatui = "0.29"
rustfft = "6"
