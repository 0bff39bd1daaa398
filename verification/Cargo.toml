[package]
name = "message_sinks"
version = "0.1.0"
edition = "2021"
publish = false

[dependencies]
base64 = "=0.10.1"
bytes = "=0.4.12"
bytesize = "=1.3.3"
futures = "0.1"
goauth = "=0.6.1"
http = "=0.1.21"
hyper = "0.12"
hyper-tls = "0.3"
lapin-futures = "=0.28.4"
pulsar = "=0.3.0"
serde = { version = "1", features = ["derive"] }
serde_json = "=1.0.154"
smpl_jwt = "0.4"
tokio = "0.1"
tokio-threadpool = "0.1"

[dev-dependencies]
openssl = "0.10"
