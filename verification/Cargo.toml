[package]
name = "containerd-manager"
version = "0.1.0"
edition = "2021"
publish = false

[dependencies]
bytes = "=1.12.1"
containerd-client = "=0.8.0"
dashmap = "=6.2.1"
futures-core = "=0.3.34"
hex = "=0.4.3"
hyper-util = { version = "=0.1.21", features = ["tokio"] }
memchr = "=2.8.3"
oci-spec = "=0.8.4"
prost-types = "=0.13.5"
rand = "=0.9.5"
serde_json = "=1.0.154"
sha2 = "=0.10.9"
thiserror = "=2.0.21"
tokio = { version = "=1.54.1", features = ["fs", "io-util", "macros", "net", "rt", "rt-multi-thread", "sync", "time"] }
tower = { version = "=0.5.3", features = ["util"] }
