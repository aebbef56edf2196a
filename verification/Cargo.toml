[package]
name = "dll_deps"
version = "0.1.0"
edition = "2021"
publish = false

[dependencies]
regex = "1"
log = "0.4"
env_logger = "0.9"
clap = { version = "3", features = ["derive"] }
windows-sys = { version = "0.52", features = ["Win32_Foundation", "Win32_System_Registry", "Win32_System_SystemInformation"] }
