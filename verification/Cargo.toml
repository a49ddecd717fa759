[package]
name = "cognitarium"
version = "0.1.0"
edition = "2021"
publish = false

[dependencies]
rio_api = "*"
rio_turtle = "*"
rio_xml = "*"
blake3 = "*"
bs58 = "*"
url = "*"
thiserror = "*"
