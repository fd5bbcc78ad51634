[package]
name = "cargo-udeps"
version = "0.1.0"
edition = "2021"
publish = false

[dependencies]
anyhow = "=1.0.104"
cargo = "=0.81.0"
# Held at this release: later ones ask for a newer compiler.
cargo-util = "=0.2.14"
clap = { version = "=4.6.7", features = ["derive"] }
# Not used directly. cargo brings kstring in, and its later releases ask for a
# newer compiler, so it is held at this one.
kstring = "=2.0.2"
nu-ansi-term = "=0.50.3"
serde = { version = "=1.0.229", features = ["derive"] }
serde_json = "=1.0.154"
