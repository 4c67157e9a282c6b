[package]
name = "ontext"
version = "0.1.0"
edition = "2021"
publish = false

[dependencies]
arboard = "=3.7.0"
cpal = "=0.18.2"
dotenvy = "=0.15.7"
enigo = "=0.6.1"
hound = "=3.5.1"
objc2-app-kit = "=0.3.2"
objc2-foundation = "=0.3.2"
rdev = "=0.5.3"
reqwest = { version = "=0.12.28", default-features = false, features = ["json", "multipart", "rustls-tls"] }
serde = { version = "=1.0.229", features = ["derive"] }
thiserror = "=2.0.21"
tokio = { version = "=1.54.1", features = ["rt-multi-thread", "macros", "sync", "time"] }
webrtc-vad = "=0.4.0"
