[package]
name = "waterui_lints"
version = "0.1.0"
edition = "2021"
publish = false

[dependencies]
rustc_lexer = "*"
ra-ap-rustc_lexer = "*"
rustc-literal-escaper = "*"
toml = "*"
serde = { version = "*", features = ["derive"] }
clippy_utils = "*"
dylint_linting = "*"
