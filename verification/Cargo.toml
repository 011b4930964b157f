[package]
name = "tone_smithy"
version = "1.2.0"
edition = "2021"
publish = false

[dependencies]
anyhow = "1"
arc-swap = "1"
cpal = "0.15"
crossbeam-channel = "0.5"
midir = "0.10"
thiserror = "1"
tracing = "0.1"
tracing-subscriber = { version = "0.3", features = ["env-filter"] }
ureq = "2"
