[package]
name = "module_graph"
version = "0.1.0"
edition = "2021"
publish = false

[dependencies]
napi = "=2.16.17"
napi-derive = "=2.16.13"
oxc_allocator = "=0.38.0"
oxc_ast = "=0.38.0"
oxc_module_lexer = "=0.38.0"
oxc_parser = "=0.38.0"
oxc_resolver = "=1.12.0"
oxc_span = "=0.38.0"
pathdiff = "=0.2.3"
regex = "=1.13.1"
