[package]
name = "diaspor_vfs"
version = "0.1.0"
edition = "2021"
publish = false

[dependencies]
anyhow = "1"
async-trait = "0.1"
base64 = "0.22"
chrono = "0.4"
dirs = "5"
filetime = "0.2"
futures = "0.3"
libc = "0.2"
md5 = "0.7"
once_cell = "1"
opendal = { version = "0.45", default-features = false, features = ["services-s3", "services-azblob", "rustls"] }
parking_lot = "0.12"
regex = "1"
reqwest = { version = "0.11", default-features = false, features = ["json", "stream", "rustls-tls"] }
serde = { version = "1", features = ["derive"] }
serde_json = "1"
tokio = { version = "1", features = ["rt-multi-thread", "macros", "fs", "sync", "time", "io-util"] }
tracing = "0.1"
tracing-subscriber = "0.3"
urlencoding = "2"
uuid = { version = "1", features = ["v4"] }
walkdir = "2"
