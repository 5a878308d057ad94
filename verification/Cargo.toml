[package]
name = "espclient"
version = "0.1.0"
edition = "2021"
publish = false

[dependencies]
bytes = "1"
clap = { version = "4", features = ["derive"] }
rustyline = "*"
colored = "*"
anstyle = "*"
