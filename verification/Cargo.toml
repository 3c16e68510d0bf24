[package]
name = "wasm_codegen"
version = "0.1.0"
edition = "2021"
publish = false

[dependencies]
proc-macro2 = "1"
quote = "1"
syn = { version = "2", features = ["full"] }
prettyplease = "0.2"
serde = { version = "1", features = ["derive"] }
bincode = "1"
futures = "0.3"
