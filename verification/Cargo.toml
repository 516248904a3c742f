[package]
name = "downloader"
version = "0.1.0"
edition = "2021"
publish = false

[dependencies]
anyhow = "1"
async-compression = { version = "0.4", features = ["tokio", "brotli", "bzip2", "deflate", "deflate64", "gzip", "lzma", "xz", "zlib", "zstd"] }
bytes = "1"
futures = "0.3"
futures-core = "0.3"
indicatif = "0.17"
reqwest = { version = "0.12", features = ["socks", "stream"] }
serde = { version = "1", features = ["derive"] }
serde_json = "1"
tokio = { version = "1", features = ["full"] }
tokio-stream = "0.1"
tokio-util = { version = "0.7", features = ["io"] }
url = "2"
warp = "0.3"
