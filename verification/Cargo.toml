[package]
name = "sqlx_transaction"
version = "0.1.0"
edition = "2021"
publish = false

[dependencies]
futures-core = "0.3"
opentelemetry = "*"
percent-encoding = "2"
tracing = "0.1"
tracing-opentelemetry = "*"

[dev-dependencies]
opentelemetry_sdk = "*"
tracing-core = "0.1"
tracing-subscriber = "0.3"
