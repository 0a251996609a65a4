[package]
name = "gba_orca"
version = "0.1.9"
edition = "2021"
publish = false

[dependencies]
serde = { version = "1", features = ["derive"] }
thiserror = "2"
tokio = { version = "1", features = ["full"] }
axum = { version = "0.7", features = ["ws"] }
futures-util = "0.3"
tokio-stream = { version = "0.1", features = ["sync"] }
bytes = "1"
tracing = "0.1"
local-ip-address = "0.6"
x11rb = "0.13"
windows = { version = "0.58", features = ["Win32_Foundation", "Win32_Security", "Win32_UI_WindowsAndMessaging", "Win32_UI_Input_KeyboardAndMouse", "Win32_System_JobObjects", "Win32_System_Threading"] }
ashpd = "0.10"
pipewire = "0.9"
