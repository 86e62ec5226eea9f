[package]
name = "mock_response"
version = "0.1.0"
edition = "2021"
publish = false

[dependencies]
http-types = "2"

[dev-dependencies]
futures-lite = "*"
