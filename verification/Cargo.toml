[package]
name = "multipart"
version = "0.1.0"
edition = "2021"
publish = false

[dependencies]
aws-config = "*"
aws-sdk-s3 = "*"
aws-types = "*"
bytes = "*"
tokio = { version = "*", features = ["macros", "rt-multi-thread", "time"] }
