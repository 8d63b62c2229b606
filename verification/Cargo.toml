[package]
name = "opentelemetry"
version = "0.1.0"
edition = "2021"
publish = false

[dependencies]
flurry = "*"
rustc_apfloat = "*"
futures = "0.3"
thiserror = "1"
serde = { version = "1", features = ["derive"] }
lazy_static = "1.4"
