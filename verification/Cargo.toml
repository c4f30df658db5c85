[package]
name = "pitch_tts"
version = "0.1.0"
edition = "2021"
publish = false

[dependencies]
clap = { version = "=4.6.7", features = ["derive"] }
colored = "=3.1.1"
hound = "=3.5.1"
once_cell = "=1.21.4"
piper-rs = "=0.2.0"
rodio = "=0.22.2"
rubato = "=0.16.2"
serde = { version = "=1.0.229", features = ["derive"] }
serde_json = "=1.0.151"
