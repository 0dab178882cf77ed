[package]
name = "matatu_fleet"
version = "0.1.0"
edition = "2021"
publish = false

[dependencies]
candid = "*"
ic-cdk = "*"
serde = { version = "*", features = ["derive"] }
