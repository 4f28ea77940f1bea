[package]
name = "pdf_ok"
version = "0.1.0"
edition = "2021"
publish = false

[dependencies]
colored = "*"
dotenvy = "*"
headless_chrome = "*"
markdown = "*"
pdf_composer = "*"
serde = "1"
serde_yaml = "0.9"
url-escape = "*"
