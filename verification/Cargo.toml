[package]
name = "audio_ext"
version = "0.1.0"
edition = "2021"
publish = false

[dependencies]
byteorder = "1"
serde_json = "1"
futures = "0.3"
async-std = "1"
libloading = "0.6"
