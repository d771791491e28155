[package]
name = "toolchain_bench"
version = "0.1.0"
edition = "2021"
publish = false

[dependencies]
anyhow = "1"
clap = { version = "3.2", features = ["derive"] }
cmd_lib = "1"
env_logger = "0.9"
histogram = "0.6"
itertools = "0.10"
log = "0.4"
serde = { version = "1", features = ["derive"] }
serde_json = "1"
toml = "0.5"
