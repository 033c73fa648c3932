[package]
name = "jegal"
version = "0.1.0"
edition = "2021"
publish = false

[dependencies]
byteorder = "=1.5.0"
secrecy = "=0.8.0"
async-trait = "=0.1.92"
dashmap = "=5.5.3"
tokio = { version = "=1.54.1", features = ["rt-multi-thread", "net", "io-util", "sync", "macros", "time"] }
pyo3 = "=0.20.3"
arrow = { version = "57", default-features = false, features = ["ffi", "ipc"] }
