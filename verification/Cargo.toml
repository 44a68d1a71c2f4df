[package]
name = "amo"
version = "0.1.0"
edition = "2021"
publish = false

[dependencies]
aws-config = "=1.13.0"
aws-sdk-dynamodb = "=1.134.0"
aws-smithy-runtime-api = { version = "=1.19.1", features = ["client"] }
aws-smithy-types = "=1.9.0"
tokio = { version = "=1.54.1", features = ["macros", "rt-multi-thread"] }
