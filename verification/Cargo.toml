[package]
name = "str_utils"
version = "0.1.0"
edition = "2021"
publish = false

[dependencies]
unidecode = "0.3"
unicode-normalization = "0.1"
serde = "1"
