[package]
name = "ganbare_backend"
version = "0.1.0"
edition = "2021"
publish = false

[dependencies]
regex = "1"
rand = "0.8"
time = "0.1"
chrono = { version = "0.4", default-features = false }
mime = "0.3"
hyper = "0.10"
diesel = { version = "2", default-features = false, features = ["postgres"] }

[dev-dependencies]
tempdir = "0.3"
