[package]
name = "tikv_redis"
version = "0.1.0"
edition = "2021"
publish = false

[dependencies]
futures = "0.1"
grpcio = "0.4"
protobuf = "2"
threadpool = "1.7"
