[package]
name = "sq_common"
version = "0.1.0"
edition = "2021"
publish = false

[dependencies]
anyhow = "1"
atomic = "0.5"
clap = { version = "4", features = ["derive"] }
libc = "0.2"
log = "0.4"
scrawl = "1.1"
serde = { version = "1", features = ["derive"] }
serde_json = "1"
