[package]
name = "dst_vec"
version = "0.1.0"
edition = "2021"
publish = false

[dependencies]
referent = { version = "=0.1.1", default-features = false }
