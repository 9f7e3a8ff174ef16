[package]
name = "scanner_core"
version = "0.1.0"
edition = "2021"
publish = false

[dependencies]
sha2 = "0.10"
serde = { version = "1", features = ["derive"] }
serde_json = "1"
rusqlite = { version = "*", features = ["bundled"] }
rayon = "1"
thiserror = "1"
windows-sys = { version = "0.59", features = ["Win32_Foundation", "Win32_Security", "Win32_Storage_FileSystem", "Win32_System_JobObjects", "Win32_System_Threading", "Win32_System_Pipes", "Win32_System_IO"] }
