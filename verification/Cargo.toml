[package]
name = "opendal_remote"
version = "0.1.0"
edition = "2021"
publish = false

[dependencies]
bytesize = "*"
opendal = { version = "*", features = ["services-b2", "services-ftp", "services-onedrive", "services-s3", "layers-throttle"] }
uuid = { version = "1", features = ["v4"] }
serde = { version = "1", features = ["derive"] }
serde_derive = "1"
derive_setters = "*"
tokio = { version = "1", features = ["io-util"] }
tokio-util = { version = "0.7", features = ["compat"] }
async-trait = "0.1"
chrono = "0.4"
