[package]
name = "aegis_guardian"
version = "0.1.0"
edition = "2021"
publish = false

[dependencies]
regex = "1"
sha2 = "0.10"
hex = "0.4"
sysinfo = "0.33"
dirs = "5"
chrono = "0.4"
serde = { version = "1", features = ["derive"] }
serde_json = "1"
serde_yaml = "0.9"
rusqlite = { version = "0.32", features = ["bundled"] }
arboard = { version = "3", default-features = false }
tokio = { version = "1", features = ["rt-multi-thread", "macros", "time"] }
pyo3 = { version = "0.22", features = ["auto-initialize"] }
log = "0.4"
