[package]
name = "eppo_core"
version = "0.1.0"
edition = "2021"
publish = false

[dependencies]
regex = "=1.13.1"
chrono = "=0.4.45"
pyo3 = { version = "=0.29.3", features = ["chrono"] }
numpy = "=0.29.0"
html2text = "=0.17.1"
hex = "=0.4.3"
bitcoin = "=0.32.102"
ordinals = "=0.0.17"
itertools = "*"
num-traits = "*"
rayon = "*"
log = "*"
serde_json = "*"
thiserror = "*"
arrow = "*"
parquet = "*"
rust_decimal = "*"
crossbeam-channel = "*"
futures = "*"
