[package]
name = "wifi"
version = "0.1.0"
edition = "2021"
publish = false

[dependencies]
tokio = { version = "1", features = ["sync", "time"] }
windows = { version = "0.58", features = ["Win32_Foundation", "Win32_Security", "Win32_NetworkManagement_WiFi", "Win32_NetworkManagement_Ndis", "Win32_NetworkManagement_IpHelper", "Win32_Networking_WinSock", "Win32_System_Com", "Foundation", "Foundation_Collections", "Networking_Connectivity", "Devices_Radios"] }
