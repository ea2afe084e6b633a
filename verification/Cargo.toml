[package]
name = "obsfuse"
version = "0.1.0"
edition = "2021"
publish = false

[dependencies]
anyhow = "=1.0.104"
bytes = "=1.12.1"
bytesize = { version = "=1.3.3", features = ["serde"] }
clap = { version = "=4.6.7", features = ["derive", "env"] }
dashmap = "=6.2.1"
dirs = "=5.0.1"
fuse3 = { version = "=0.8.1", features = ["tokio-runtime", "unprivileged"] }
futures = "=0.3.34"
humantime = "=2.4.0"
libc = "=0.2.191"
nix = { version = "=0.29.0", features = ["user"] }
opendal = { version = "=0.55.0", features = ["services-obs"] }
parking_lot = "=0.12.5"
serde = { version = "=1.0.229", features = ["derive"] }
thiserror = "=1.0.69"
tokio = { version = "=1.54.1", features = ["full"] }
toml = "=0.8.23"
tracing = "=0.1.44"
tracing-subscriber = { version = "=0.3.23", features = ["env-filter"] }
