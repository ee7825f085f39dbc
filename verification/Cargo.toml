[package]
name = "nitum_pdf_core"
version = "0.1.0"
edition = "2021"
publish = false

[dependencies]
anyhow = "1"
semver = "1"
sha2 = "0.10"
x509-cert = "0.2"
der = "0.7"
directories = "*"
tempfile = "3"
zeroize = "1"
jiff = "0.2"
serde = { version = "1", features = ["derive"] }
reqwest = { version = "0.12", default-features = false, features = ["blocking", "json", "rustls-tls"] }
image = { version = "0.25", default-features = false, features = ["png", "jpeg", "gif", "bmp", "tiff", "webp"] }
cryptoki = "*"
pdfium-render = "*"
arboard = "3"
