[package]
name = "pglsp_core"
version = "0.1.0"
edition = "2021"
publish = false

[dependencies]
text-size = "1.1.1"
xflags = "0.3"
tree-sitter = "0.20.10"
quick-junit = "0.5.0"
proc-macro2 = "1"
quote = "1"
sqlx = { version = "0.8", default-features = false, features = ["postgres"] }
