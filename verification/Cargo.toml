[package]
name = "unused_expression"
version = "0.1.0"
edition = "2021"
publish = false

[dependencies]
oxc_allocator = "0.61"
oxc_ast = "0.61"
oxc_ecmascript = "0.61"
oxc_span = "0.61"
oxc_syntax = "0.61"

[dev-dependencies]
oxc_parser = "0.61"
oxc_semantic = "0.61"
