[package]
name = "single_sign"
version = "0.1.0"
edition = "2021"
publish = false

[dependencies]
alloy-primitives = { version = "1", features = ["k256", "serde"] }
alloy-dyn-abi = { version = "1", features = ["eip712"] }
alloy-sol-types = { version = "1", features = ["json"] }
alloy-signer = { version = "1" }
alloy-signer-local = { version = "1" }
anyhow = { version = "1" }
clap = { version = "4", features = ["derive", "env"] }
dotenvy = { version = "0.15" }
serde = { version = "1", features = ["derive"] }
serde_json = { version = "1" }
tokio = { version = "1", features = ["macros", "rt-multi-thread"] }
tracing = { version = "0.1" }
tracing-subscriber = { version = "0.3", features = ["env-filter"] }
url = { version = "2" }
