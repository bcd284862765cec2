[package]
name = "yosina"
version = "0.1.0"
edition = "2021"
publish = false

[dependencies]
anyhow = "=1.0.104"
itertools = "=0.15.0"
phf = { version = "=0.11.3", features = ["macros"] }
phf_generator = "=0.11.3"
proc-macro2 = "=1.0.107"
quote = "=1.0.47"
serde = { version = "=1.0.229", features = ["derive"] }
serde_json = "=1.0.154"
syn = "=2.0.119"
thiserror = "=2.0.21"
