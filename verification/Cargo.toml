[package]
name = "nicy_runtime"
version = "0.1.0"
edition = "2021"
publish = false

[dependencies]
serde_json = "1"
libloading = "0.8"
mlua-sys = { version = "0.6", features = ["luau", "luau-codegen", "vendored"] }
