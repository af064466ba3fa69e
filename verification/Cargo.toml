[package]
name = "ethersync_web"
version = "0.1.0"
edition = "2021"
publish = false

[dependencies]
automerge = "*"
rand = "*"
anyhow = "*"
futures = "*"
iroh = "*"
tokio = { version = "*", features = ["full"] }
