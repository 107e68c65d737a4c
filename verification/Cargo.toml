[package]
name = "fibonacci_prover"
version = "0.1.0"
edition = "2021"
publish = false

[dependencies]
hex = "*"
clap = { version = "*", features = ["derive"] }
dotenv = "*"
serde = { version = "*", features = ["derive"] }
serde_json = "*"
num-bigint = "*"
