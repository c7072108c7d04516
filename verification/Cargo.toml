[package]
name = "hearsay"
version = "0.1.0"
edition = "2021"
publish = false

[dependencies]
serde_json = "1"
rtrb = "0.3"
crossbeam-channel = "0.5"
log = "0.4"
env_logger = { version = "0.11", default-features = false }
hound = "3"
libc = "0.2"
directories = "6"
serde = { version = "1", features = ["derive"] }
ureq = { version = "3", features = ["json"] }
cpal = "0.17"
whisper-rs = "*"
coreaudio-rs = "*"
objc2-audio-toolbox = "*"
