[package]
name = "space_snapshots"
version = "0.1.0"
edition = "2021"
publish = false

[dependencies]
aws-config = "*"
aws_lambda_events = "*"
aws-sdk-s3 = "*"
aws-sdk-ssm = "*"
chrono = "*"
lambda_http = "*"
lambda_runtime = "*"
log = "*"
reqwest = { version = "*", default-features = false, features = ["rustls-tls", "json"] }
serde = { version = "*", features = ["derive"] }
serde_json = "*"
simple_logger = "*"
tokio = { version = "*", features = ["macros", "rt-multi-thread"] }
tracing = "*"
tracing-subscriber = "*"
