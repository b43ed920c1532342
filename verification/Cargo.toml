[package]
name = "toolchain_finder"
version = "0.1.0"
edition = "2021"
publish = false

[dependencies]
chrono = "0.4"
native-tls = "0.2"
serde = { version = "1", features = ["derive"] }
serde_derive = "1"
toml = "0.5"
