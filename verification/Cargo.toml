[package]
name = "composefs_ops"
version = "0.1.0"
edition = "2021"
publish = false

[dependencies]
anyhow = "=1.0.104"
containers-image-proxy = "=0.11.0"
fn-error-context = "=0.2.1"
libc = "=0.2.191"
oci-delta = "=0.1.1"
rustix = { version = "=1.1.6", features = ["fs", "process"] }
thiserror = "2"
tokio = { version = "1", features = ["fs", "io-util", "macros", "rt-multi-thread", "sync", "time"] }
tracing = "0.1"
