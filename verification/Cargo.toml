[package]
name = "span_codec"
version = "0.1.0"
edition = "2021"
publish = false

[dependencies]
base64 = "0.21"
postcard = { version = "1", default-features = false, features = ["alloc"] }
rand = "0.8"
serde = { version = "1", features = ["derive"] }
