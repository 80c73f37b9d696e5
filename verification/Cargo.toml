[package]
name = "screen_13"
version = "0.1.0"
edition = "2021"
publish = false

[dependencies]
serde = { version = "1", features = ["derive"] }
bincode = "1.3"
toml = "0.5"
image = { version = "0.24", default-features = false, features = ["png", "jpeg", "bmp", "tga"] }
brotli = "3"
snap = "1"
glob = "0.3"
bmfont = { version = "0.3", default-features = false }
anyhow = "1"
log = "0.4"
winit = { version = "0.28", default-features = false, features = ["x11"] }
