[package]
name = "mod_resolver"
version = "0.1.0"
edition = "2021"
publish = false

[dependencies]
curl = "*"
dirs = "*"
rayon = "*"
serde = { version = "*", features = ["derive"] }
serde_json = "*"
sevenz-rust = "*"
