[package]
name = "css_module_exports"
version = "0.1.0"
edition = "2021"
publish = false

[dependencies]
css-module-lexer = "=0.0.16"
futures = "=0.3.34"
