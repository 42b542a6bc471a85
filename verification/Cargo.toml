[package]
name = "frills"
version = "0.1.0"
edition = "2021"
publish = false

[dependencies]
tokio = { version = "1", features = ["full"] }
tokio-util = { version = "0.7", features = ["codec"] }
tokio-stream = "0.1"
futures = "0.3"
futures-util = { version = "0.3", features = ["sink"] }
bytes = "1"
bincode = "1"
serde = { version = "1", features = ["derive"] }
slab = "0.4"
clap = "2"
pin-project = "1"
