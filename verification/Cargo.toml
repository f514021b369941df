[package]
name = "standard_paths"
version = "0.1.0"
edition = "2021"
publish = false

[dependencies]
home = "*"
nix = { version = "*", features = ["user"] }
winapi = { version = "0.3", features = ["combaseapi", "guiddef", "minwindef", "shlobj", "winbase", "winnt"] }
