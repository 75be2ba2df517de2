[package]
name = "const_typed_builder_derive"
version = "0.1.0"
edition = "2021"
publish = false

[dependencies]
itertools = "0.12"
convert_case = "0.6"
syn = { version = "2", features = ["full"] }
quote = "1"
proc-macro2 = "1"
