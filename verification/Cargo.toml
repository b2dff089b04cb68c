[package]
name = "testrunner"
version = "0.1.0"
edition = "2021"
publish = false

[dependencies]
serde = { version = "=1.0.229", features = ["derive"] }
serde_json = { version = "=1.0.154", features = ["preserve_order"] }
base64 = "=0.22.1"
zip = { version = "=0.6.6", default-features = false, features = ["deflate"] }
futures = "=0.3.34"
async-trait = "=0.1.92"
tokio = { version = "=1.54.1", features = ["macros", "rt-multi-thread"] }
tracing = "=0.1.44"
lambda_runtime = "=1.5.0"
lambda_http = "=1.3.2"
aws-sdk-dynamodb = "=1.131.0"
aws-sdk-eventbridge = "=1.122.0"
