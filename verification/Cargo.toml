[package]
name = "idcert"
version = "0.1.0"
edition = "2021"
publish = false

[dependencies]
rsa = "=0.9.10"
sha1 = "=0.10.7"
sha2 = { version = "=0.10.9", features = ["oid"] }

[dev-dependencies]
rand = "=0.8.8"
