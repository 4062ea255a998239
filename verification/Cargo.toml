[package]
name = "razd"
version = "0.1.0"
edition = "2021"
publish = false

[dependencies]
clap = { version = "=4.6.7", features = ["derive"] }
colored = "=2.2.0"
dialoguer = "=0.11.0"
dirs = "=5.0.1"
indexmap = { version = "=2.14.2", features = ["serde"] }
regex = "=1.13.1"
serde = { version = "=1.0.229", features = ["derive"] }
serde_json = "=1.0.154"
serde_yaml = "=0.9.34"
sha2 = "=0.10.9"
thiserror = "=1.0.69"
tokio = { version = "=1.54.1", features = ["macros", "process", "rt-multi-thread", "time"] }
toml = "=0.8.23"
toml_edit = "=0.22.27"
