[package]
name = "dead_man_switch"
version = "0.1.0"
edition = "2021"
publish = false

[dependencies]
local-ip-address = "=0.6.13"
tokio = { version = "=1.53.2", features = ["full"] }
clap = { version = "=4.6.7", features = ["derive"] }
log = "=0.4.34"
simplelog = "=0.12.2"
rusb = "=0.9.4"
teloxide = { version = "=0.13.0", features = ["macros"] }
takecell = "=0.1.1"
