[package]
name = "rustcraft_mappings"
version = "0.1.0"
edition = "2021"
publish = false

[dependencies]
bitcode = { version = "0.6", features = ["derive"] }
jni = "0.21"
proc-macro2 = "1"
quote = "1"
syn = { version = "1", features = ["full"] }
