[package]
name = "oplog"
version = "0.1.0"
edition = "2021"
publish = false

[dependencies]
mongodb = "2"
bson = "2"
chrono = "0.4"
futures = "0.3"
