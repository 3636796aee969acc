[package]
name = "ffg"
version = "0.1.4"
edition = "2021"
publish = false

[dependencies]
anyhow = "1"
async_zip = { version = "*", features = ["tokio", "deflate"] }
clap = "4"
colored = "*"
dirs = "*"
dom_query = "*"
flate2 = "1"
futures-lite = "*"
futures-util = "*"
human-panic = "*"
indicatif = "*"
lazy_static = "1"
reqwest = { version = "0.12", default-features = false, features = ["stream", "rustls-tls"] }
sanitize-filename = "*"
sha256 = "*"
tar = "*"
tokio = { version = "1", features = ["full"] }
tokio-util = { version = "*", features = ["compat"] }
