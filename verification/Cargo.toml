[package]
name = "midi_capture"
version = "0.1.0"
edition = "2021"
publish = false

[dependencies]
alsa = "*"
libc = "0.2"
log = "0.4"
thiserror = "*"
