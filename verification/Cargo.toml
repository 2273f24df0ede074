[package]
name = "shnippet"
version = "0.1.0"
edition = "2021"

[dependencies]
clap = { version = "4", features = ["string"] }
clap_complete = "4"
