[package]
name = "msy"
version = "0.4.5"
edition = "2021"
publish = false

[dependencies]
anyhow = "=1.0.104"
async-trait = "=0.1.92"
bitflags = "=2.13.2"
bytes = "=1.12.1"
dirs = "=7.0.0"
filetime = "=0.2.29"
futures = "=0.3.34"
object_store = { version = "=0.14.2", default-features = false, features = ["tokio"] }
tokio = { version = "=1.54.1", features = ["rt", "rt-multi-thread", "io-util", "io-std", "sync", "macros", "fs", "process"] }
tracing = "=0.1.44"
zstd = { version = "0.13", default-features = false }
