[package]
name = "qvm-ctl"
version = "1.2.0"
edition = "2021"
publish = false

[dependencies]
clap = { version = "4", features = ["derive"] }
fd-lock = "4"
nix = { version = "0.29", features = ["signal", "process"] }
supports-color = "3"
thiserror = "2"
