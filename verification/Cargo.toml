[package]
name = "game_launcher"
version = "0.1.0"
edition = "2021"
publish = false

[dependencies]
iced = { version = "0.13", default-features = false, features = ["tiny-skia", "tokio"] }
tokio = { version = "1", features = ["rt"] }
image = { version = "0.24", default-features = false, features = ["ico", "png"] }
lnk = "0.6"
serde = { version = "1", features = ["derive"] }
serde_json = "1"
thiserror = "1"
tracing = "0.1"
tracing-subscriber = { version = "0.3", default-features = false, features = ["fmt", "std"] }
uuid = { version = "1", features = ["v4"] }
windows-sys = { version = "0.52", features = ["Win32_UI_Shell", "Win32_Foundation"] }
