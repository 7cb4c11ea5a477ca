[package]
name = "neurotick"
version = "0.1.0"
edition = "2021"
publish = false

[dependencies]
base64 = "0.22"
indexmap = { version = "2", features = ["serde"] }
ndarray = "0.16"
rand = "0.8"
rand_distr = "0.4"
serde = { version = "1", features = ["derive"] }
serde_json = { version = "1", features = ["preserve_order"] }
