[package]
name = "prima_tracing"
version = "0.1.0"
edition = "2021"
publish = false

[dependencies]
chrono = "*"
once_cell = "*"
opentelemetry = "*"
opentelemetry-otlp = "*"
opentelemetry_sdk = "*"
opentelemetry-semantic-conventions = "*"
tracing = "*"
tracing-log = "*"
tracing-opentelemetry = "*"
tracing-subscriber = { version = "*", features = ["env-filter"] }

[dev-dependencies]
serde_json = "*"
