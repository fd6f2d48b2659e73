[package]
name = "terminal_forwarder"
version = "0.1.0"
edition = "2021"
publish = false

[dependencies]
axum = "0.7"
futures = "0.3"
libc = "0.2"
portable-pty = "0.8"
serde = { version = "1", features = ["derive"] }
tokio = { version = "1", features = ["full"] }
tracing = "0.1"
uuid = { version = "1", features = ["v4"] }
windows = { version = "0.58", features = ["Win32_Foundation", "Win32_System_Diagnostics_ToolHelp"] }
