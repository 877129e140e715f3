[package]
name = "nohuman"
version = "0.1.0"
edition = "2021"
publish = false

[dependencies]
anyhow = "*"
bzip2 = "*"
clap = { version = "*", features = ["derive", "env"] }
dirs = "*"
env_logger = "*"
flate2 = "*"
jiff = "=0.2.38"
liblzma = { version = "*", features = ["parallel"] }
log = "*"
md5 = "=0.8.1"
reqwest = { version = "*", default-features = false, features = ["blocking", "rustls-tls"] }
serde = { version = "*", features = ["derive"] }
tar = "*"
tempfile = "*"
toml = "*"
zstd = { version = "*", features = ["zstdmt"] }
