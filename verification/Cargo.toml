[package]
name = "power_plan_pro"
version = "0.1.0"
edition = "2021"
publish = false

[dependencies]
serde = { version = "=1.0.229", features = ["derive"] }
serde_json = "=1.0.154"
log = "=0.4.35"
lazy_static = "=1.5.1"
sysinfo = "=0.32.1"
winreg = "=0.52.0"
image = { version = "=0.25.10", default-features = false, features = ["ico", "png"] }
windows = { version = "0.61", features = ["Win32_Foundation", "Win32_Globalization", "Win32_Security", "Win32_System_Performance", "Win32_System_Threading"] }
