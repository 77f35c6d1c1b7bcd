[package]
name = "witchcraft-server"
version = "0.1.0"
edition = "2021"
publish = false

[dependencies]
arc-swap = "1"
async-compression = { version = "*", features = ["tokio", "gzip"] }
bytes = "1"
conjure-error = "*"
conjure-object = "*"
conjure-serde = "*"
foreign-types = "0.5"
futures = "0.3"
futures-channel = "0.3"
futures-sink = "0.3"
futures-util = "0.3"
lazycell = "1"
libc = "0.2"
num_cpus = "1"
once_cell = "1"
parking_lot = "0.12"
pin-project = "1"
rand = "0.8"
refreshable = "*"
rustc-demangle = "0.1"
serde = "1"
tokio = { version = "1", features = ["fs", "io-util", "rt", "rt-multi-thread", "sync", "time", "macros"] }
tokio-util = "0.7"
witchcraft-log = "*"
witchcraft-metrics = "*"
zipkin = "*"
