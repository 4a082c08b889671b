[package]
name = "vdesk"
version = "0.1.0"
edition = "2021"
publish = false

[dependencies]
anyhow = "1"
bytes = "=1.12.1"
chrono = { version = "=0.4.45", default-features = false, features = ["clock"] }
env_logger = { version = "=0.11.11", default-features = false }
futures-util = { version = "=0.3.34", default-features = false, features = ["std"] }
image = { version = "=0.25.10", default-features = false, features = ["jpeg"] }
log = { version = "0.4", features = ["std"] }
raw-window-handle = "0.6"
reqwest = { version = "=0.12.28", default-features = false, features = ["json", "blocking", "cookies", "rustls-tls"] }
serde = { version = "1", features = ["derive"] }
serde_json = "=1.0.154"
softbuffer = { version = "=0.4.8", default-features = false, features = ["x11", "x11-dlopen"] }
tokio = { version = "1", features = ["rt-multi-thread", "macros", "net", "io-util", "sync", "time"] }
tokio-tungstenite = { version = "=0.24.0", default-features = false, features = ["connect", "rustls-tls-webpki-roots"] }
uuid = { version = "=1.29.0", features = ["v4"] }
winapi = { version = "0.3", features = ["winuser", "wingdi", "timeapi", "d3d11", "dxgi", "dxgi1_2", "dxgiformat", "dxgitype", "d3dcommon", "unknwnbase", "winerror", "minwindef", "windef"] }
winit = { version = "=0.30.13", default-features = false, features = ["x11", "rwh_06"] }
