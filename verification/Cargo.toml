[package]
name = "infraplan"
version = "0.1.0"
edition = "2021"
publish = false

[dependencies]
nix = { version = "=0.26.4", features = ["mount", "fs", "user"] }
anyhow = "=1.0.104"
log = "=0.4.34"
env_logger = "=0.11.11"
clap = { version = "=4.6.7", features = ["derive"] }
serde = { version = "=1.0.229", features = ["derive"] }
serde_json = "=1.0.151"
serde_yml = "=0.0.13"
tokio = { version = "=1.53.2", features = ["rt-multi-thread", "macros", "process", "io-util", "fs", "signal", "time"] }
tokio-tar = "=0.3.1"
async-compression = { version = "=0.4.50", features = ["tokio", "zstd", "gzip", "bzip2", "xz", "lzma"] }
reqwest = { version = "=0.12.28", default-features = false, features = ["rustls-tls", "stream"] }
futures-util = "=0.3.34"
bytes = "=1.12.1"
libc = "=0.2.190"
