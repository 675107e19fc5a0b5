[package]
name = "cetka"
version = "0.1.0"
edition = "2021"
publish = false

[dependencies]
anyhow = "=1.0.104"
aya = { version = "=0.10.7", features = ["async_tokio"] }
aya-ebpf = "=0.1.1"
bytes = "=1.12.1"
log = "=0.4.34"
simplelog = "=0.12.2"
structopt = "=0.3.26"
tokio = { version = "=1.54.1", features = ["macros", "rt", "rt-multi-thread", "net", "signal"] }
