[package]
name = "hyper_http_connector"
version = "0.1.0"
edition = "2021"
publish = false

[dependencies]
antidote = "=1.0.0"
c-ares = "=5.0.4"
c-ares-resolver = "=4.0.3"
futures = "=0.1.31"
futures-cpupool = "=0.1.8"
http = "=0.1.21"
hyper = "=0.12.36"
lazy_static = "=1.5.1"
log = "=0.4.35"
net2 = "=0.2.39"
tokio = "=0.1.22"
tokio-reactor = "=0.1.12"
tokio-tcp = "=0.1.4"
trust-dns-resolver = "=0.9.1"
