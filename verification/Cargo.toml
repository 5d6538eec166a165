[package]
name = "bicdb_sql"
version = "0.1.0"
edition = "2021"
publish = false

[dependencies]
sqlparser = { version = "=0.62.0", features = ["serde", "visitor"] }
serde_json = "=1.0.154"
serde = { version = "=1.0.229", features = ["derive"] }
regex = "=1.13.1"
rustc-hash = "=2.1.3"
h3o = "=0.11.1"
stacker = "=0.1.25"
