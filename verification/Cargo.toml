[package]
name = "creamlinux"
version = "0.1.0"
edition = "2021"
publish = false

[dependencies]
regex = "1"
num_cpus = "1"
serde = { version = "1", features = ["derive"] }
serde_json = "1"
log = "0.4"
walkdir = "2"
xdg = "2"
tempfile = "3"
zip = { version = "0.6", default-features = false, features = ["deflate"] }
reqwest = { version = "0.12", default-features = false, features = ["json", "rustls-tls"] }
tokio = { version = "1", features = ["rt-multi-thread", "macros", "sync", "time"] }
parking_lot = "0.12"
