[package]
name = "grpc_datastore"
version = "0.1.0"
edition = "2021"
publish = false

[dependencies]
futures = "0.1"
grpcio = "0.4"
uuid = "0.7"
serde = "1"
serde_json = "1"
regex = "1"
