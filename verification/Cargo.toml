[package]
name = "soroban-guard-core"
version = "0.1.0"
edition = "2021"
publish = false

[dependencies]
clap = { version = "=4.6.7", features = ["derive"] }
colored = "=3.1.1"
glob = "=0.3.4"
proc-macro2 = { version = "=1.0.107", features = ["span-locations"] }
quote = "=1.0.47"
serde = { version = "=1.0.229", features = ["derive"] }
serde_json = "=1.0.154"
syn = { version = "=2.0.119", features = ["full", "visit", "extra-traits"] }
thiserror = "=2.0.21"
toml = "=1.1.8"
walkdir = "=2.5.0"
