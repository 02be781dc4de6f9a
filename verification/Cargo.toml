[package]
name = "graph_bridge"
version = "0.1.0"
edition = "2021"
publish = false

[dependencies]
serde = { version = "*", features = ["derive"] }
serde_json = "*"
rustnn = "*"
webnn-graph = "*"
