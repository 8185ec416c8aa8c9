[package]
name = "jormungandr_services"
version = "0.1.0"
edition = "2021"
publish = false

[dependencies]
async-trait = "=0.1.50"
organix = "=0.1.3"
thiserror = "=1.0.30"
tokio = { version = "=0.2.25", features = ["io-driver", "macros", "stream", "sync", "time"] }
