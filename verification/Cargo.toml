[package]
name = "nue"
version = "0.1.0"
edition = "2021"
publish = false

[dependencies]
serde_json = "*"
node-semver = "*"
fastrand = "*"
clap = { version = "*", features = ["derive"] }
ureq = "*"
dirs = "*"
anyhow = "*"
liblzma = "*"
binstall-tar = "*"
