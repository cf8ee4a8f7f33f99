[package]
name = "dms_toolkit_rs"
version = "0.1.0"
edition = "2021"
publish = false

[dependencies]
calamine = "=0.36.1"
chardetng = "=1.0.0"
dashmap = "=6.2.1"
docx-rs = "=0.4.22"
encoding_rs = "=0.8.42"
image = "=0.25.10"
ocrs = "=0.13.1"
pdf-extract = "=0.12.1"
rayon = "=1.12.0"
rten = "=0.26.0"
