[package]
name = "typed_builder_macro"
version = "0.1.0"
edition = "2021"
publish = false

[dependencies]
proc-macro2 = "=1.0.107"
quote = "=1.0.47"
syn = { version = "=2.0.119", features = ["full", "extra-traits"] }

[dev-dependencies]
proc-macro2 = { version = "=1.0.107", features = ["span-locations"] }
