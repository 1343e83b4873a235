[package]
name = "fungus"
version = "0.1.0"
edition = "2021"
publish = false

[dependencies]
blake2 = "=0.11.0"
regex = "=1.13.1"
walkdir = "=2.5.0"
glob = "=0.3.4"
libc = "=0.2.191"
git2 = { version = "=0.21.0", default-features = false }
flate2 = "=1.1.10"
tar = "=0.4.46"
indicatif = "=0.18.6"
log = "0.4"
chrono = "0.4"
colored = "2"
