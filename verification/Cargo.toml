[package]
name = "jailpull"
version = "0.1.0"
edition = "2021"
publish = false

[dependencies]
anyhow = "*"
flate2 = "*"
libc = "*"
reqwest = { version = "*", default-features = false, features = ["rustls-tls"] }
tar = "*"
tempfile = "*"
tokio = { version = "*", features = ["macros", "rt-multi-thread"] }
