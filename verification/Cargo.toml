[package]
name = "humanize_datetime"
version = "0.1.0"
edition = "2021"
publish = false

[dependencies]
chrono = "0.4"
structopt = "0.3"

[dev-dependencies]
chrono-humanize = "0.2"
