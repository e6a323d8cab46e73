[package]
name = "mikup_dsp"
version = "0.1.0"
edition = "2021"
publish = false

[dependencies]
crossbeam-queue = "0.3"
symphonia = { version = "0.5", default-features = false, features = ["wav", "pcm"] }
ebur128 = "0.1"
rustfft = "6"
cpal = "0.15"
serde = { version = "1", features = ["derive"] }
serde_json = "1"
