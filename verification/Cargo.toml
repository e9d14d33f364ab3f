[package]
name = "xpmanager"
version = "0.1.0"
edition = "2021"
publish = false

[dependencies]
clap = "4"
colored = "*"
crossterm = "*"
dirs = "*"
fernet = { version = "0.2", default-features = false, features = ["rustcrypto"] }
num_cpus = "1"
rand = "0.9"
serde_json = "1"
tabled = "*"
