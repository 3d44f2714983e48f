[package]
name = "aymond"
version = "0.1.0"
edition = "2021"
publish = false

[dependencies]
syn = { version = "=2.0.119", features = ["full"] }
quote = "=1.0.47"
proc-macro2 = "=1.0.107"
aws-sdk-dynamodb = { version = "=1.134.0", default-features = false }
aws-config = { version = "=1.13.0", default-features = false }
aws-types = "=1.7.0"
aws-credential-types = { version = "=1.3.1", features = ["hardcoded-credentials"] }
futures = "=0.3.34"
