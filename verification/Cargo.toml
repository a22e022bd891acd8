[package]
name = "cgroups-rs"
version = "0.1.0"
edition = "2021"
publish = false

[dependencies]
nix = { version = "=0.31.3", default-features = false, features = ["event", "inotify"] }
thiserror = "=2.0.21"
zbus = "=6.2.1"
