[package]
name = "payment_gateway"
version = "0.1.0"
edition = "2021"
publish = false

[dependencies]
futures = "*"
lapin = "*"
serde = { version = "*", features = ["derive"] }
serde_json = "*"
tokio = { version = "*", features = ["macros", "rt-multi-thread"] }
uuid = { version = "*", features = ["serde"] }
