[package]
name = "rust_scrcpy"
version = "0.1.0"
edition = "2021"
publish = false

[dependencies]
async-trait = "0.1"
bytes = "1.9"
ffmpeg-next = "8"
flutter_rust_bridge = "=2.11.1"
ndarray = "0.16"
once_cell = "1"
ort = { version = "=2.0.0-rc.10", default-features = false, features = ["std", "ndarray", "load-dynamic"] }
serde = { version = "1.0", features = ["derive"] }
serde_json = "1.0"
thiserror = "2.0"
tokio = { version = "1.42", features = ["rt", "macros", "net", "process", "sync", "time", "io-util"] }
tracing = "0.1"
tracing-subscriber = "0.3"
windows = { version = "0.58", features = ["Win32_Foundation", "Win32_Graphics_Direct3D", "Win32_Graphics_Direct3D11", "Win32_Graphics_Dxgi", "Win32_Graphics_Dxgi_Common"] }
