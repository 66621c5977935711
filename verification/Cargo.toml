[package]
name = "stats"
version = "0.1.0"
edition = "2021"
publish = false

[dependencies]
async-trait = "=0.1.92"
bytes = "=1.12.1"
log = "=0.4.35"
rtcp = "=0.7.2"
rtp = "=0.6.8"
webrtc-util = { version = "=0.7.0", default-features = false, features = ["marshal", "sync"] }
