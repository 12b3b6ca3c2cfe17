[package]
name = "toolport_codemode"
version = "0.1.0"
edition = "2021"
publish = false

[dependencies]
boa_engine = "0.21"
boa_gc = "0.21"
libc = "0.2"
serde = { version = "1", features = ["derive"] }
serde_json = "1"
windows-sys = { version = "0.61", features = ["Win32_Foundation", "Win32_Security", "Win32_System_JobObjects", "Win32_System_Threading", "Win32_System_Diagnostics_ToolHelp"] }
