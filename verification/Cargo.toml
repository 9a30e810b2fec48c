[package]
name = "fluvio_codec"
version = "0.1.0"
edition = "2021"
publish = false

[dependencies]
semver = "0.11"
url = "2"
unicode-ident = "1"
proc-macro2 = "1"
quote = "1"
syn = { version = "2", features = ["full"] }
tracing = "0.1"
serde = { version = "1", features = ["derive"] }
serde_json = "1"
thiserror = "1"
async-trait = "0.1"
async-channel = "1"
fluvio-future = { version = "*", features = ["task", "timer"] }
fluvio-helm = "*"
k8-client = "*"
k8-config = "*"
k8-types = "*"
