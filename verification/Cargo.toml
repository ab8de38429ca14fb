[package]
name = "drop_app"
version = "0.1.0"
edition = "2021"
publish = false

[dependencies]
hex = "=0.4.3"
md5 = "=0.7.0"
shell-words = "=1.1.1"
url = "=2.5.8"
humansize = "=2.1.3"
page_size = "=0.6.0"
serde = { version = "=1.0.229", features = ["derive"] }
serde_json = "=1.0.154"
log = "=0.4.35"
chrono = "=0.4.45"
sysinfo = "=0.40.1"
reqwest = { version = "=0.12.28", default-features = false, features = ["blocking", "json", "rustls-tls"] }
bitcode = { version = "0.6", features = ["derive"] }
