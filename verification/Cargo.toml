[package]
name = "sleuth"
version = "0.1.0"
edition = "2021"
publish = false

[dependencies]
censor = "=0.3.0"
regex = "=1.13.1"
clap = { version = "=4.6.7", features = ["derive"] }
serde = { version = "=1.0.229", features = ["derive"] }
serde_json = "=1.0.154"
log = "=0.4.35"
rand = "0.9"
widestring = "1"
