[package]
name = "grepdef"
version = "0.1.0"
edition = "2021"
publish = false

[dependencies]
clap = { version = "4", features = ["derive"] }
colored = "*"
crossbeam-channel = "*"
exitcode = "*"
ignore = "*"
memchr = "*"
regex = "*"
strum_macros = "*"

[dev-dependencies]
serde_json = "*"
