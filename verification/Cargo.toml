[package]
name = "riscfetch"
version = "0.1.0"
edition = "2021"
publish = false

[dependencies]
clap = { version = "4", features = ["derive"] }
colored = "2"
figlet-rs = "0.1"
gethostname = "*"
serde = { version = "1", features = ["derive"] }
serde_json = "1"
sysinfo = "*"
