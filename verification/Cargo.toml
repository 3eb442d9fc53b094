[package]
name = "onebox-sysproxy-rs"
version = "0.1.0"
edition = "2021"
publish = false

[dependencies]
url = "=2.5.8"
serde = { version = "=1.0.229", features = ["derive"] }
serde_json = "=1.0.154"
clap = { version = "=4.6.7", features = ["derive"] }
thiserror = "=2.0.21"
log = "=0.4.35"
env_logger = "=0.11.11"
windows-sys = { version = "=0.61.2", features = ["Win32_Foundation", "Win32_Networking_WinInet", "Win32_NetworkManagement_Rras", "Win32_NetworkManagement_WindowsFirewall", "Win32_Security", "Win32_Security_Authorization"] }
