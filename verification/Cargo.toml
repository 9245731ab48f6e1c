[package]
name = "route_sync"
version = "0.1.0"
edition = "2021"
publish = false

[dependencies]
csv = "*"
serde = "*"
serde_derive = "*"
serde_json = "*"
reqwest = { version = "*", default-features = false, features = ["json"] }
futures = "*"
tokio = { version = "*", features = ["rt-multi-thread", "macros"] }
clap = { version = "*", features = ["derive"] }
strum = { version = "*", features = ["derive"] }
