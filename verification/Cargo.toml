[package]
name = "kumo"
version = "0.1.0"
edition = "2021"
publish = false

[dependencies]
semver = "=1.0.28"
sha1 = "=0.10.7"
sha2 = { version = "=0.10.9", features = ["oid"] }
blake3 = "=1.8.7"
url = "=2.5.8"
urlencoding = "=2.1.3"
chrono = "=0.4.45"
regex = "=1.13.1"
anyhow = "=1.0.104"
clap = { version = "=4.6.7", features = ["derive"] }
serde = { version = "=1.0.229", features = ["derive"] }
serde_json = { version = "=1.0.154", features = ["preserve_order"] }
serde_yml = "=0.0.13"
dirs = "=7.0.0"
tokio = { version = "=1.54.1", features = ["full"] }
reqwest = { version = "=0.12.28", default-features = false, features = ["json", "rustls-tls", "stream"] }
futures = "=0.3.34"
indicatif = "=0.18.6"
dialoguer = "=0.12.0"
flate2 = "=1.1.10"
tar = "=0.4.46"
walkdir = "=2.5.0"
rand = "=0.8.8"
rsa = "=0.9.10"
num_cpus = "=1.17.0"
filetime = "=0.2.29"
glob = "=0.3.4"
