[package]
name = "ipc_server"
version = "0.1.0"
edition = "2021"
publish = false

[dependencies]
arrayvec = { version = "0.5.2", default-features = false }
