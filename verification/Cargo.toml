[package]
name = "smtmv"
version = "0.1.0"
edition = "2021"
publish = false

[dependencies]
smt2parser = "*"
isabelle-client = "*"
serde = { version = "1", features = ["derive"] }
serde_json = "1"
tokio = { version = "1", features = ["rt-multi-thread"] }
tempfile = "3"
clap = { version = "4", features = ["derive"] }
env_logger = "*"
log = "0.4"
