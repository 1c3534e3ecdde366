[package]
name = "safe-migrate"
version = "0.1.0"
edition = "2021"
publish = false

[dependencies]
serde = { version = "=1.0.229", features = ["derive"] }
# The lexer and the parser are used through squawk-syntax, which asks for no
# exact version of them; later ones need a newer compiler.
squawk-lexer = "=2.45.0"
squawk-parser = "=2.45.0"
squawk-syntax = "=2.45.0"
