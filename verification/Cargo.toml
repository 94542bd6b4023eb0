[package]
name = "vehicle_filter"
version = "0.1.0"
edition = "2021"
publish = false

[dependencies]
lambda_runtime = "0.2"
serde = "1"
serde_derive = "1"
serde_json = "1"
sha2 = "0.10"
