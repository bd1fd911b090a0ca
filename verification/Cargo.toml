[package]
name = "multi_ip_proxy"
version = "0.1.0"
edition = "2021"
publish = false

[dependencies]
async-trait = "*"
base64 = "*"
env_logger = "*"
log = "*"
pingora-core = "*"
pingora-http = "*"
pingora-proxy = "*"
