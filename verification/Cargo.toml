[package]
name = "wallpaper_desktop"
version = "0.1.0"
edition = "2021"
publish = false

[dependencies]
sha2 = "=0.10.9"
image = { version = "=0.25.10", default-features = false, features = ["jpeg", "png", "webp", "bmp"] }
serde = { version = "=1.0.229", features = ["derive"] }
serde_json = "=1.0.154"
rusqlite = { version = "=0.41.1", features = ["bundled"] }
reqwest = { version = "=0.12.28", default-features = false, features = ["json", "stream", "rustls-tls"] }
tokio = { version = "=1.54.1", features = ["rt-multi-thread", "fs", "sync", "time", "macros", "io-util"] }
futures-util = "=0.3.34"
directories = "=6.0.0"
thiserror = "=2.0.21"
