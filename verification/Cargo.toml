[package]
name = "cteepbd"
version = "0.1.0"
edition = "2021"
publish = false

[dependencies]
clap = "2.33"
exitcode = "1.1"
serde = { version = "1", features = ["derive"] }
serde_json = "1"
