[package]
name = "ayux"
version = "0.1.0"
edition = "2021"
publish = false

[dependencies]
argon2 = "=0.5.3"
bincode = "=1.3.3"
ed25519-dalek = "=2.2.0"
fontdue = "=0.9.5"
hex = "=0.4.3"
hmac = "=0.12.1"
image = { version = "=0.25.10", default-features = false, features = ["bmp", "dds", "exr", "ff", "gif", "hdr", "ico", "jpeg", "png", "pnm", "qoi", "tga", "tiff", "webp"] }
nix = "=0.26.4"
rand = "=0.8.8"
serde = { version = "=1.0.229", features = ["derive"] }
serde_json = "=1.0.154"
sha2 = "=0.10.9"
termion = "=2.0.3"
toml = "=0.8.23"
uuid = { version = "=1.29.0", features = ["v4"] }
