[package]
name = "cargo_watt"
version = "0.1.0"
edition = "2021"
publish = false

[dependencies]
toml_edit = "0.22"
syn = { version = "1", features = ["full"] }
quote = "1"
proc-macro2 = "1"
fastrand = "2"
anyhow = "1"
log = "0.4"
pretty_env_logger = "0.5"
clap = { version = "4", features = ["derive"] }
cargo_metadata = "0.18"
walkdir = "2"
ureq = "2"
serde_json = "1"
flate2 = "1"
tar = "0.4"
