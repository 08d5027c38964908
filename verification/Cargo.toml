[package]
name = "napos"
version = "0.1.0"
edition = "2021"
publish = false

[dependencies]
lazy_static = { version = "1", features = ["spin_no_std"] }
pc-keyboard = "0.7"
pic8259 = "0.10"
spin = "0.5"
x86_64 = { version = "0.14", default-features = false, features = ["instructions"] }
