[package]
name = "get_data_url"
version = "0.1.0"
edition = "2021"
publish = false

[dependencies]
base64-url = "*"
mime = "0.3"
percent-encoding = "2"
reqwest = "*"
