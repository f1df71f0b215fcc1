[package]
name = "nearweave"
version = "0.4.1"
edition = "2021"
publish = false

[dependencies]
arboard = { version = "*", default-features = false }
chacha20poly1305 = "0.10"
dirs = "*"
if-addrs = "*"
serde = { version = "1", features = ["derive"] }
serde_json = "1"
sha2 = "*"
snow = "0.10"
thiserror = "*"
tokio = { version = "1", features = ["fs", "io-util", "macros", "net", "rt-multi-thread", "sync", "time"] }
uuid = { version = "1", features = ["v4"] }
