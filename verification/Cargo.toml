[package]
name = "vtrunkd"
version = "0.1.0"
edition = "2021"
publish = false

[dependencies]
base64 = "0.22"
boringtun = "0.6"
rand = "0.8"
serde = { version = "1", features = ["derive"] }
serde_yaml = "0.9"
thiserror = "1"
tokio = { version = "1", features = ["rt-multi-thread", "macros", "net", "sync", "time", "signal"] }
tracing = "0.1"
tracing-subscriber = { version = "0.3", features = ["env-filter"] }
clap = { version = "4", features = ["derive"] }
nix = { version = "0.29", features = ["process", "fs"] }
tun = { version = "0.7", features = ["async"] }
get_if_addrs = "0.5"
