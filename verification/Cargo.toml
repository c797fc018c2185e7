[package]
name = "rest_api_builder"
version = "0.1.0"
edition = "2021"
publish = false

[dependencies]
serde = { version = "1", features = ["derive"] }
serde_json = "1"
serde_qs = "*"
syn = { version = "2", features = ["full"] }
quote = "1"
proc-macro2 = "1"
thiserror = "*"
ureq = "2"
reqwest = { version = "0.12", default-features = false, features = ["blocking"] }
