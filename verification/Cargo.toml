[package]
name = "sunaba"
version = "0.1.0"
edition = "2021"
publish = false

[dependencies]
bollard = "0.19"
futures = "0.3"
once_cell = "1"
rmcp = { version = "0.8", features = ["server", "macros", "transport-io"] }
schemars = "1"
serde = { version = "1", features = ["derive"] }
thiserror = "2"
tokio = { version = "1", features = ["full"] }
tracing = "0.1"
tracing-subscriber = { version = "0.3", features = ["env-filter", "fmt"] }
