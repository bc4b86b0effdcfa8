[package]
name = "redlib"
version = "0.1.0"
edition = "2021"
publish = false

[dependencies]
regex = "=1.13.1"
url = "=2.5.8"
serde = { version = "=1.0.229", features = ["derive"] }
serde_json = "=1.0.154"
hyper = "=0.14.32"
chrono = "0.4"
htmlescape = "0.3"
rss = "2"
time = { version = "0.3", features = ["formatting", "macros"] }
