[package]
name = "tale"
version = "0.1.0"
edition = "2021"
publish = false

[dependencies]
serde = { version = "1", features = ["derive"] }
serde_json = "1"
shlex = "1"
uuid = { version = "1", features = ["v7"] }
tokio = { version = "1", features = ["full"] }
crossterm = "*"
ratatui = "*"
libc = "0.2"
tempfile = "3"
toml = "*"
zeroize = "1"
thiserror = "*"
time = "0.3"
hyper = { version = "1", features = ["client", "http1"] }
hyper-util = { version = "0.1", features = ["tokio"] }
http-body-util = "0.1"
bytes = "1"
