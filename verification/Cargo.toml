[package]
name = "classic_server"
version = "0.1.0"
edition = "2021"
publish = false

[dependencies]
rand = "0.7"
reqwest = { version = "0.11", default-features = false, features = ["blocking"] }
flume = "0.11"
fern = { version = "0.6", features = ["colored"] }
log = "0.4"
chrono = "0.4"
