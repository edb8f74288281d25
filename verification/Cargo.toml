[package]
name = "rangedl"
version = "0.1.0"
edition = "2021"
publish = false

[dependencies]
hyper = "0.10"
hyper-native-tls = "0.3"
clap = "2"
threadpool = "1"
