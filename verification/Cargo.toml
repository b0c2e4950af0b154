[package]
name = "edge_ascii"
version = "0.1.0"
edition = "2021"
publish = false

[dependencies]
anyhow = "=1.0.104"
clap = { version = "=4.6.7", features = ["derive"] }
ffmpeg-sidecar = "=2.7.0"
freetype-rs = "=0.38.0"
image = { version = "=0.25.10", default-features = false, features = ["png", "jpeg", "gif", "bmp", "webp", "tiff"] }
imageproc = "=0.27.0"
infer = "=0.22.0"
linear-srgb = { version = "=0.6.12", features = ["transfer"] }
mimalloc = "=0.1.52"
ndarray = "=0.17.2"
spmc = "=0.3.0"
