[package]
name = "kokoro_sapi"
version = "0.1.0"
edition = "2021"
publish = false

[dependencies]
serde_json = "1"
anyhow = "1"
libloading = "0.8"
zip = { version = "2", default-features = false, features = ["deflate"] }
winreg = "0.55"
ort = { version = "2.0.0-rc.10", default-features = false, features = ["load-dynamic"] }
windows = { version = "0.61", features = ["Win32_Foundation", "Win32_System_Com", "Win32_Security", "Win32_System_Threading", "Win32_UI_Shell", "Win32_System_Registry"] }
