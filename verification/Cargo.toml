[package]
name = "axum_openapi"
version = "0.1.0"
edition = "2021"
publish = false

[dependencies]
syn = { version = "=2.0.119", features = ["full"] }
proc-macro2 = { version = "=1.0.107", features = ["span-locations"] }
openapiv3 = "=2.2.0"
serde = "=1.0.229"
serde_yaml = "=0.9.34"
hyper = "=0.14.32"
axum = "=0.1.3"
