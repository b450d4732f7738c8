[package]
name = "drill"
version = "0.1.0"
edition = "2021"
publish = false

[dependencies]
hex = "0.4"
rand = "0.8"
url = "2"
serde_json = "1"
serde_yaml = "0.9"
csv = "1"
reqwest = { version = "0.12", features = ["cookies"] }
tokio = { version = "1", features = ["rt-multi-thread", "time"] }
futures = "0.3"
clap = { version = "4", features = ["derive"] }
colored = "2"
num_cpus = "1"
hdrhistogram = { version = "7", default-features = false }
linked-hash-map = "0.5"

[dev-dependencies]
regex = "1"
