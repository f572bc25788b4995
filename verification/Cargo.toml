[package]
name = "routeupd"
version = "0.1.0"
edition = "2021"
publish = false

[dependencies]
anyhow = "=1.0.104"
argh = "=0.1.19"
capctl = "=0.2.4"
futures-util = "=0.3.34"
ipnet = "=2.12.2"
netlink-packet-route = "=0.19.0"
reqwest = { version = "=0.11.27", features = ["gzip"] }
rtnetlink = "=0.14.1"
systemd = "=0.10.1"
tokio = { version = "=1.54.1", features = ["full"] }
url = "=2.5.8"
