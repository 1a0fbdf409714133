[package]
name = "e2e_trust"
version = "0.1.0"
edition = "2021"
publish = false

[dependencies]
x509-cert = { version = "=0.2.5", features = ["pem"] }
openmls = "=0.5.0"
openmls_traits = "0.2"
base64 = "0.21"
tls_codec = "0.3"
serde = { version = "1", features = ["derive"] }
tracing = "0.1"
