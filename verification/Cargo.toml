[package]
name = "abz"
version = "0.1.0"
edition = "2021"
publish = false

[dependencies]
anyhow = "=1.0.104"
flate2 = "=1.1.10"
human_bytes = "=0.4.3"
iced = { version = "=0.14.0", default-features = false, features = ["tiny-skia", "tokio", "sipper", "wayland"] }
lucide-rs = { version = "=0.1.0", features = ["data"] }
rfd = { version = "=0.15.4", default-features = false, features = ["xdg-portal", "tokio"] }
sevenz-rust2 = "=0.24.2"
tar = "=0.4.46"
tokio = { version = "=1.54.1", features = ["rt-multi-thread", "sync"] }
zip = { version = "=2.6.1", default-features = false, features = ["deflate", "bzip2"] }
