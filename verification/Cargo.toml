[package]
name = "vsock_manager"
version = "0.1.0"
edition = "2021"
publish = false

[dependencies]
anyhow = "1"
dashmap = "6"
mbedtls = "*"
postcard = { version = "1", features = ["use-std"] }
serde = { version = "1", features = ["derive"] }
teec-protocol = "*"
virga = "*"
xtee-psk = "*"
