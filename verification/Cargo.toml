[package]
name = "wvm_backfill"
version = "0.1.0"
edition = "2021"
publish = false

[dependencies]
anyhow = "=1.0.104"
brotli = "=9.0.0"
bundlr-sdk = "=0.5.0"
planetscale-driver = "=0.5.1"
reqwest = { version = "=0.12.4", features = ["json"] }
serde = { version = "=1.0.229", features = ["derive"] }
serde_json = "=1.0.151"
tokio = { version = "=1.53.2", features = ["rt-multi-thread", "macros"] }

[dev-dependencies]
borsh = "=1.8.1"
