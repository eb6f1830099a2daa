[package]
name = "ndca_lang"
version = "0.1.0"
edition = "2021"
publish = false

[dependencies]
inkwell = { version = "=0.5.0", default-features = false, features = ["llvm14-0-force-dynamic"] }
thread_local = "=1.1.10"
lazy_static = "=1.5.1"
