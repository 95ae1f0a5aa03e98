[package]
name = "retromount"
version = "0.1.0"
edition = "2021"
publish = false

[dependencies]
chd = "*"
serde = { version = "1", features = ["derive"] }
serde_json = "1"
serde_yaml = "0.9"
thiserror = "*"
zip = "*"
