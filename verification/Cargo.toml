[package]
name = "ibkr_flex_mcp"
version = "0.1.0"
edition = "2021"
publish = false

[dependencies]
quick-xml = { version = "=0.42.0", features = ["serialize"] }
rmcp = { version = "=3.8.0", features = ["server", "macros", "transport-io"] }
tokio = { version = "=1.54.1", features = ["macros", "rt-multi-thread", "time", "io-std"] }
reqwest = { version = "=0.13.5", features = ["query"] }
serde = { version = "=1.0.229", features = ["derive"] }
serde_json = "=1.0.154"
schemars = "=1.2.3"
thiserror = "=2.0.21"
dotenvy = "=0.15.7"
