[package]
name = "auraed"
version = "0.1.0"
edition = "2021"
publish = false

[dependencies]
ipnetwork = "=0.21.1"
anyhow = "=1.0.104"
libc = "=0.2.190"
log = "=0.4.34"
simplelog = "=0.12.2"
syslog = "=7.0.0"
multi_log = "=0.1.2"
walkdir = "=2.5.0"
futures = "=0.3.34"
clap = { version = "=4.6.7", features = ["derive"] }
tokio = { version = "=1.53.2", features = ["full"] }
tokio-stream = { version = "=0.1.19", features = ["net"] }
tokio-rustls = "=0.23.4"
rustls-pemfile = "=1.0.4"
tonic = { version = "=0.8.3", features = ["tls"] }
rtnetlink = "=0.11.0"
netlink-packet-route = "=0.13.0"
