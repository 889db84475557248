[package]
name = "kvs"
version = "0.1.0"
edition = "2021"
publish = false

[dependencies]
bson = "0.14"
failure = "0.1"
structopt = "0.3"
