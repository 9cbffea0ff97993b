[package]
name = "nlprule"
version = "0.1.0"
edition = "2021"
publish = false

[dependencies]
flate2 = "1"
bincode = "1"
serde = { version = "1", features = ["derive"] }
directories = "*"
reqwest = { version = "0.11", default-features = false, features = ["blocking"] }
