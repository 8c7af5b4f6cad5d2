[package]
name = "nicky"
version = "0.1.0"
edition = "2021"
publish = false

[dependencies]
kankyo = "=0.2.0"
parking_lot = "=0.8.0"
rand = "=0.6.5"
rayon = "1"
regex = "=1.13.1"
rustbreak = { version = "=2.0.0", features = ["bin_enc"] }
serde = { version = "=1.0.229", features = ["derive"] }
serde_derive = "=1.0.229"
serenity = { version = "=0.6.4", default-features = false, features = ["builder", "cache", "client", "framework", "gateway", "model", "http", "standard_framework", "utils", "native_tls_backend"] }
typemap = "=0.3.3"
