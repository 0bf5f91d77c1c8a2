[package]
name = "frame_playback"
version = "0.1.0"
edition = "2021"
publish = false

[dependencies]
image = "0.23"
miniz_oxide = "0.4"
log = "0.4"
smithay-client-toolkit = "0.15"
