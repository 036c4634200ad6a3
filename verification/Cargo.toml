[package]
name = "mesh_runtime"
version = "0.1.0"
edition = "2021"
publish = false

[dependencies]
rand = "0.9"
serde = { version = "1", features = ["derive"] }
bincode = { version = "2", features = ["serde"] }
socket2 = { version = "0.5", features = ["all"] }
tokio = { version = "1", features = ["net", "time", "rt-multi-thread", "macros", "sync"] }
futures = "0.3"
