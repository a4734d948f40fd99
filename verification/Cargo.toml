[package]
name = "audio_player"
version = "0.1.0"
edition = "2021"
publish = false

[dependencies]
biquad = "=0.5.0"
bytemuck = { version = "=1.25.2", features = ["extern_crate_alloc"] }
cpal = "=0.17.3"
ffmpeg-next = "=8.0.0"
raw-window-handle = "=0.6.2"
reqwest = { version = "=0.12.28", default-features = false }
rodio = { version = "=0.22.2", default-features = false, features = ["flac", "mp3", "mp4", "vorbis", "wav", "dither"] }
serde = { version = "=1.0.229", features = ["derive"] }
serde_json = "=1.0.154"
souvlaki = "=0.8.3"
tempfile = "=3.27.0"
tokio = { version = "=1.54.1", features = ["fs", "rt"] }
