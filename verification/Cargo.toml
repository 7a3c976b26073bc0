[package]
name = "tonic_mock"
version = "0.1.0"
edition = "2021"
publish = false

[dependencies]
bytes = "1"
http = "1"
http-body-util = "0.1"
prost = "0.14"
tokio = { version = "1", default-features = false, features = ["sync", "time", "rt"] }
tonic = { version = "0.14", default-features = false, features = ["codegen"] }
tonic-prost = "0.14"
tower = { version = "0.5", default-features = false, features = ["util"] }
