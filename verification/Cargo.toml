[package]
name = "loop_lib"
version = "0.1.0"
edition = "2021"
publish = false

[dependencies]
anyhow = "1"
colored = "2"
diff = "0.1"
serde = { version = "1", features = ["derive"] }
serde_json = "1"
