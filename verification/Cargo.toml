[package]
name = "hltas_manager"
version = "0.1.0"
edition = "2021"
publish = false

[dependencies]
anyhow = "1"
clap = { version = "3", features = ["derive"] }
env_logger = "0.10"
fs_extra = "1"
log = "0.4"
serde = { version = "1", features = ["derive"] }
sha2 = "0.10"
sysinfo = "0.32"
toml = "0.8"
