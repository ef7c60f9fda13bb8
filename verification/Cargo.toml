[package]
name = "tiny-dfr"
version = "0.1.0"
edition = "2021"
publish = false

[dependencies]
anyhow = "=1.0.104"
cairo-rs = { version = "=0.22.9", default-features = false, features = ["freetype", "png"] }
drm = "=0.11.1"
freedesktop-icons = "=0.4.0"
freetype-rs = "=0.38.0"
input = "=0.8.3"
input-linux = { version = "=0.6.1", features = ["serde"] }
input-linux-sys = "=0.8.2"
libc = "=0.2.191"
librsvg = "=2.63.4"
nix = { version = "=0.27.1", features = ["event", "signal", "inotify"] }
privdrop = "=0.5.7"
rand = "=0.8.8"
serde = { version = "=1.0.229", features = ["derive"] }
toml = "=0.8.23"
