[package]
name = "eud"
version = "0.1.0"
edition = "2021"
publish = false

[dependencies]
sysinfo = "0.29"
colored = "2"
tokio = { version = "1", features = ["full"] }
clap = { version = "4", features = ["derive"] }
dirs = "5"
