[package]
name = "minifront"
version = "0.1.0"
edition = "2021"
publish = false

[dependencies]
inkwell = { version = "=0.4.0", features = ["llvm14-0"] }
llvm-sys = { version = "140", features = ["prefer-dynamic"] }
