[package]
name = "eppo_config"
version = "0.1.0"
edition = "2021"
publish = false

[dependencies]
eppo_core = "=3.0.0"
serde_json = "=1.0.154"
pyo3 = "0.22"
log = "=0.4.34"
