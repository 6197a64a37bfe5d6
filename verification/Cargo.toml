[package]
name = "comet_plugin"
version = "0.1.0"
edition = "2021"
publish = false

[dependencies]
blake = "2"
hex = "0.4"
ed25519 = "2"
ed25519-dalek = { version = "2", features = ["rand_core"] }
zstd = "0.13"
semver = { version = "1", features = ["serde"] }
rand = "0.8"
serde = { version = "1", features = ["derive"] }
serde_json = "1"
bincode = "1.3"
tempfile = "3"
libloading = "0.8"
abi_stable = "0.11"
log = "0.4"
once_cell = "1"
pem = "1"
thiserror = "1"
anyhow = "1"
clap = { version = "4", features = ["derive"] }
rustix = { version = "0.38", features = ["fs"] }
