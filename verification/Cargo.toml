[package]
name = "objstore"
version = "0.1.0"
edition = "2021"
publish = false

[dependencies]
mime_guess = "*"
anyhow = "*"
tokio = { version = "1", features = ["macros", "rt-multi-thread"] }
tokio-stream = "*"
aws-sdk-s3 = "*"
