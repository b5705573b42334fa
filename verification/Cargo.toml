[package]
name = "estree_tokens"
version = "0.1.0"
edition = "2021"
publish = false

[dependencies]
oxc_ast = { version = "0.117", features = ["serialize"] }
oxc_ast_visit = { version = "0.117", features = ["serialize"] }
oxc_estree = { version = "0.117", features = ["serialize"] }
oxc_span = { version = "0.117", features = ["serialize"] }
