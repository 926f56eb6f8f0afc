[package]
name = "mcproto"
version = "0.1.0"
edition = "2021"
publish = false

[dependencies]
byteorder = "=1.5.0"
bytes = "=0.4.12"
flate2 = "=1.1.10"
futures = "=0.1.31"
hematite-nbt = { version = "=0.5.2", features = ["preserve_order"] }
serde = { version = "=1.0.229", features = ["derive"] }
tokio = { version = "=0.1.22", default-features = false, features = ["codec"] }
tokio-serde = "=0.3.0"
uuid = "=0.8.2"
