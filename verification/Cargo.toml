[package]
name = "tauri_kit"
version = "0.1.0"
edition = "2021"
publish = false

[dependencies]
keyring-core = "*"
libc = "0.2"
tempfile = "3"
zbus-secret-service-keyring-store = { version = "*", features = ["crypto-rust"] }
windows-native-keyring-store = "*"
apple-native-keyring-store = "*"
windows-sys = { version = "*", features = ["Win32_Foundation", "Win32_Security", "Win32_System_JobObjects", "Win32_System_Threading"] }
