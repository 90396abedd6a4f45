[package]
name = "aws-auth"
version = "0.1.0"
edition = "2021"
publish = false

[dependencies]
aws-config = { version = "1", default-features = false, features = ["rt-tokio", "credentials-process"] }
aws-credential-types = "1"
aws-sigv4 = "1"
aws-types = "1"
bytes = "1"
http = "1"
thiserror = "2"
tokio = { version = "1", features = ["sync"] }
