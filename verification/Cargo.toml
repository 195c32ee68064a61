[package]
name = "subnet_relay"
version = "0.1.0"
edition = "2021"
publish = false

[dependencies]
fvm_shared = "3"
ethers = { version = "2", default-features = false }
anyhow = "1"
async-trait = "0.1"
clap = { version = "4", features = ["derive"] }
log = "0.4"
serde = { version = "1", features = ["derive"] }
serde_json = "1"
