[package]
name = "shovel"
version = "0.1.0"
edition = "2021"
publish = false

[dependencies]
drax = "=0.1.1"
hyper = { version = "=0.14.32", features = ["client", "http1", "tcp"] }
hyper-rustls = "=0.23.2"
log = "=0.4.35"
md-5 = "=0.10.6"
num-bigint = "=0.4.8"
openssl = "=0.10.82"
pin-project-lite = "=0.2.17"
proxy-protocol = "=0.5.0"
rand = "=0.8.8"
rsa = "=0.7.2"
rsa-der = "=0.3.0"
serde = { version = "=1.0.229", features = ["derive"] }
serde_json = "=1.0.154"
sha1 = { version = "=0.10.7", features = ["oid"] }
sha2 = { version = "=0.10.9", features = ["oid"] }
tokio = { version = "=1.54.1", features = ["full"] }
uuid = { version = "=1.29.0", features = ["serde"] }
