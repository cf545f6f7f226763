[package]
name = "starfold_ui"
version = "0.1.0"
edition = "2021"
publish = false

[dependencies]
base64 = "=0.23.1"
sha2 = "=0.11.1"
shell-words = "=1.1.1"
mime_guess = "=2.0.5"
crossbeam-channel = "=0.5.17"
portable-pty = "=0.9.0"
vt100 = "=0.18.1"
anyhow = "=1.0.104"
unicode-width = "=0.2.3"
unicode-segmentation = "*"
