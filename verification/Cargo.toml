[package]
name = "elfo"
version = "0.1.0"
edition = "2021"
publish = false

[dependencies]
anyhow = "1"
arc-swap = "1"
bytesize = { version = "1", features = ["serde"] }
erased-serde = "0.4"
eyre = "0.6"
futures = "0.3"
futures-intrusive = "0.5"
fxhash = "=0.2.1"
humantime-serde = "1"
libc = "0.2"
linkme = "0.3"
metrics = "0.17"
once_cell = "1"
parking_lot = "0.12"
pin-project = "1"
regex = "=1.13.1"
rmp-serde = "1"
scc = "=2.4.0"
serde = { version = "1", features = ["derive"] }
serde_json = { version = "=1.0.154", features = ["raw_value"] }
slotmap = "=1.1.1"
smallbox = "0.8"
smallvec = "=1.16.4"
thread_local = "1"
tokio = { version = "1", features = ["fs", "macros", "rt", "rt-multi-thread", "signal", "sync", "time"] }
tracing = "0.1"
unicycle = "*"
