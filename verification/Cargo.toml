[package]
name = "rgsp-cast"
version = "0.1.0"
edition = "2021"
publish = false

[dependencies]
alsa = "0.9"
anyhow = "1"
async-shutdown = "0.2"
clap = { version = "4", features = ["derive"] }
jsonrpsee = { version = "0.26", features = ["server", "client-core", "async-client", "macros"] }
libc = "0.2"
libloading = "0.8"
sdl2-sys = { version = "0.37", default-features = false }
serde = { version = "1", features = ["derive"] }
tokio = { version = "1", features = ["full"] }
toml = "0.8"
tracing = "0.1"
tracing-subscriber = { version = "0.3", features = ["env-filter"] }
