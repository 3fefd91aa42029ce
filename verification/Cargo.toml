[package]
name = "tls_server"
version = "0.1.0"
edition = "2021"
publish = false

[dependencies]
mio = "0.6"
rustls = "0.17"
vecio = "0.1"
daemonize = "0.4"
