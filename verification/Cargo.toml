[package]
name = "common_rust"
version = "0.1.0"
edition = "2021"
publish = false

[dependencies]
auditable-info = "*"
auditable-serde = "*"
chrono = "0.4"
clap = { version = "4", features = ["derive"] }
fast_log = "*"
log = "0.4"
nix = { version = "*", features = ["signal"] }
serde = { version = "1", features = ["derive"] }
serde_with = "*"
serde-xml-rs = "*"
