[package]
name = "lambda_benchmark"
version = "0.1.0"
edition = "2021"
publish = false

[dependencies]
regex = "1"
serde = { version = "1", features = ["derive"] }
serde_json = "1"
serde_yaml = "0.9"
walkdir = "2"
anyhow = "1"
chrono = { version = "0.4", default-features = false, features = ["clock"] }
tokio = { version = "1", features = ["macros", "rt-multi-thread", "sync"] }
lambda_runtime = "0.8"
aws_lambda_events = { version = "0.10", default-features = false, features = ["cloudwatch_logs"] }
aws-config = "0.56"
aws-sdk-s3 = "0.29"
aws-smithy-http = "0.56"
bytes = "1"
tracing = "0.1"
tracing-subscriber = { version = "0.3", features = ["json"] }
rust_decimal = "1"
egui = "0.23"
egui_plot = "0.23"
reqwest = { version = "0.11", default-features = false, features = ["blocking", "json", "rustls-tls"] }
