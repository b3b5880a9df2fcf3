[package]
name = "cargo_compete"
version = "0.1.0"
edition = "2021"
publish = false

[dependencies]
anyhow = "1"
dirs = "3"
heck = "0.3"
itertools = "0.10"
liquid = "0.22"
serde = { version = "1", features = ["derive"] }
serde_json = "1"
structopt = "0.3"
strum = { version = "0.20", features = ["derive"] }
toml = "0.5"
toml_edit = "0.2"
url = "2"
