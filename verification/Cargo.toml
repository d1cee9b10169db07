[package]
name = "landscape"
version = "0.1.0"
edition = "2021"
publish = false

[dependencies]
cidr = "0.3"
futures = "0.3"
netlink-packet-route = "0.19"
rtnetlink = "0.14"
tokio = { version = "1", features = ["macros", "net", "rt", "rt-multi-thread", "sync", "time"] }
tracing = "0.1"
