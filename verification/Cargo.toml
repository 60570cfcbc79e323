[package]
name = "pg_trickle"
version = "0.1.0"
edition = "2021"
publish = false

[dependencies]
chrono = "=0.4.45"
serde_json = "=1.0.154"
thiserror = "=2.0.21"
tokio-postgres = "=0.7.18"
