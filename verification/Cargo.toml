[package]
name = "workhorse"
version = "0.1.0"
edition = "2021"
publish = false

[dependencies]
url = "=2.5.8"
shell-escape = "=0.1.5"
clean-path = "=0.2.1"
shellwords = "=1.1.0"
atomicring = "=1.2.9"
serde = { version = "=1.0.229", features = ["derive"] }
serde_json = "=1.0.154"
clap = { version = "=4.6.7", features = ["derive"] }
anyhow = "=1.0.104"
cargo-options = { version = "*", features = ["serde"] }
git2 = { version = "*", default-features = false }
