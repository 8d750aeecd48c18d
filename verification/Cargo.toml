[package]
name = "operation_tasks"
version = "0.1.0"
edition = "2021"
publish = false

[dependencies]
url = "2.5"
serde_json = "1"
serde = { version = "1", features = ["derive"] }
rustix = { version = "1", features = ["fs"] }
object_store = { version = "0.13", default-features = false, features = ["fs"] }
parquet = { version = "58", default-features = false, features = ["arrow"] }
arrow = { version = "58", default-features = false }
