[package]
name = "ibmad"
version = "0.1.0"
edition = "2021"
publish = false

[dependencies]
log = "*"
nix = { version = "*", features = ["ioctl", "poll"] }
rand = "*"
tokio = { version = "*", features = ["fs"] }
