[package]
name = "rkvm"
version = "0.6.0"
edition = "2021"
publish = false

[dependencies]
bincode = "1.3"
clap = { version = "4", features = ["derive"] }
futures = "0.3"
hmac = "0.12"
inotify = "0.10"
libc = "0.2"
rand = "0.8"
serde = { version = "1", features = ["derive"] }
sha2 = "0.10"
slab = "0.4"
thiserror = "1"
tokio = { version = "1", features = ["fs", "io-util", "macros", "net", "rt-multi-thread", "signal", "sync", "time"] }
tokio-rustls = { version = "0.26", default-features = false, features = ["ring", "tls12", "logging"] }
toml = "0.8"
tracing = "0.1"
tracing-subscriber = { version = "0.3", features = ["env-filter"] }
