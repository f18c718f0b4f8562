[package]
name = "http_reactor"
version = "0.1.0"
edition = "2021"
publish = false

[dependencies]
hyper = "=0.10.16"
mio = "=0.4.4"
url = "=1.7.2"
