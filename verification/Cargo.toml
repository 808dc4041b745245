[package]
name = "bitbridge"
version = "0.1.0"
edition = "2021"
publish = false

[dependencies]
base64 = "=0.22.1"
maxminddb = "=0.32.0"
lz4_flex = "=0.14.0"
sha1 = "=0.10.7"
hmac = "=0.12.1"
stun = "=0.17.2"
str0m = { version = "=0.24.1", default-features = false, features = ["rust-crypto"] }
tokio = { version = "=1.54.1", features = ["net", "rt", "rt-multi-thread", "macros", "time", "sync"] }
socket2 = "=0.6.5"
log = "=0.4.35"
