[package]
name = "hardlight"
version = "1.0.0"
edition = "2021"
publish = false

[dependencies]
actix-web = { version = "=4.18.1", features = ["rustls"] }
array-init = "=2.1.0"
async-trait = "=0.1.92"
bytecheck = "=0.6.12"
flate2 = "=1.1.10"
futures-util = "=0.3.34"
parking_lot = "=0.12.5"
proc-macro2 = "=1.0.107"
quote = "=1.0.47"
rcgen = "=0.10.0"
reqwest = { version = "=0.11.27", default-features = false, features = ["rustls-tls"] }
rkyv = { version = "=0.7.46", features = ["validation", "archive_le"] }
rustls = { version = "=0.20.9", features = ["dangerous_configuration"] }
rustls-native-certs = "=0.6.3"
rustls-pemfile = "=1.0.4"
syn = { version = "=2.0.119", features = ["full"] }
tokio = { version = "=1.54.1", features = ["full"] }
tokio-rustls = "=0.23.4"
tokio-tungstenite = { version = "=0.18.0", features = ["rustls-tls-native-roots"] }
tracing = "=0.1.44"
tracing-subscriber = "=0.3.23"
version = "=3.0.0"
