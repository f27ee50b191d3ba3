[package]
name = "bgp4rs"
version = "0.1.0"
edition = "2021"
publish = false

[dependencies]
anyhow = "1"
async-trait = "*"
axum = "*"
clap = { version = "4", features = ["derive", "env"] }
log = "0.4"
log4rs = "*"
network-interface = "*"
serde = { version = "1", features = ["derive"] }
thiserror = "*"
tokio = { version = "1", features = ["full"] }
twelf = { version = "*", features = ["yaml"] }
uuid = { version = "1", features = ["v4"] }

[dev-dependencies]
serde_json = "1"
