[package]
name = "parsekit"
version = "0.1.0"
edition = "2021"
publish = false

[dependencies]
calamine = "=0.37.0"
docx-rs = "=0.4.22"
encoding_rs = "=0.8.42"
image = { version = "=0.25.10", default-features = false, features = ["png", "jpeg", "tiff", "bmp"] }
magnus = "=0.7.1"
mupdf = "=0.8.0"
quick-xml = "=0.41.0"
serde_json = "=1.0.154"
tesseract-rs = "=0.4.0"
zip = { version = "=9.1.0", default-features = false, features = ["deflate"] }
