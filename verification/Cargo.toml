[package]
name = "librespot_uwp"
version = "0.1.0"
edition = "2021"
publish = false

[dependencies]
base64 = "0.22"
byteorder = "1.5"
bytes = "1"
futures-util = "0.3"
hex = "0.4"
log = "0.4"
priority-queue = "2"
serde = { version = "1", features = ["derive"] }
serde_json = "1"
sha1 = "0.10"
thiserror = "2"
tokio = { version = "1", features = ["rt-multi-thread", "sync", "time", "macros"] }
