[package]
name = "rustic_audio_tool"
version = "0.1.0"
edition = "2021"
publish = false

[dependencies]
audiopus = "*"
cpal = "*"
hound = "*"
ogg = "*"
opus = "*"
rand = "*"
rustfft = "*"
