[package]
name = "loadout"
version = "0.4.0"
edition = "2021"
publish = false

[dependencies]
clap = { version = "4", features = ["derive"] }
rustix = { version = "1", features = ["fs"] }
serde = { version = "1", features = ["derive"] }
serde_json = "1"
serde_yaml = "0.9"
windows-sys = { version = "*", features = ["Win32_Foundation", "Win32_Storage_FileSystem"] }
