[package]
name = "mq"
version = "0.1.0"
edition = "2021"
publish = false

[dependencies]
mq-lang = "*"
mq-markdown = "*"
pyo3 = "*"
