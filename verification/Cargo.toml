[package]
name = "bwvault"
version = "0.1.0"
edition = "2021"
publish = false

[dependencies]
uuid = { version = "=1.27.0", features = ["v4"] }
reqwest = { version = "=0.13.5", default-features = false, features = ["blocking", "form"] }
directories = "=6.0.0"

[dev-dependencies]
serde_json = "=1.0.151"
