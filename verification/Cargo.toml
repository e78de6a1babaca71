[package]
name = "systems_critical"
version = "0.1.0"
edition = "2021"
publish = false

[dependencies]
rand = "=0.8.8"
quicksilver = { version = "=0.3.22", default-features = false, features = ["fonts", "sounds"] }
