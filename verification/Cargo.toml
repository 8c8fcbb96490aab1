[package]
name = "muzap"
version = "0.1.0"
edition = "2021"
publish = false

[dependencies]
encoding_rs = "0.8"
semver = "1"
sha2 = "0.10"
hex = "0.4"
chrono = "0.4"
clap = { version = "4", features = ["derive"] }
crossterm = "0.28"
indicatif = "0.17"
reqwest = { version = "0.12", default-features = false, features = ["blocking", "json", "rustls-tls"] }
serde = { version = "1", features = ["derive"] }
serde_json = "1"
sysinfo = "0.33"
thiserror = "2"
tokio = { version = "1", features = ["rt", "rt-multi-thread", "net", "time"] }
walkdir = "2"
zip = { version = "2", default-features = false, features = ["deflate"] }
windows-service = "0.7"
windows-sys = { version = "0.59", features = ["Win32_Foundation", "Win32_System_Registry", "Win32_System_Services", "Win32_Storage_FileSystem", "Win32_Security", "Win32_System_Threading", "Win32_System_JobObjects"] }
