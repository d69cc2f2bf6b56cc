[package]
name = "dx"
version = "0.1.0"
edition = "2021"
publish = false

[dependencies]
serde_json = "*"
toml_edit = "*"
serde = { version = "*", features = ["derive"] }
serde_yaml = "*"
clap = { version = "*", features = ["derive"] }
notify = "*"
reqwest = { version = "*", default-features = false, features = ["blocking", "json"] }
