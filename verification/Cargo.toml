[package]
name = "quickcodes"
version = "0.1.0"
edition = "2021"
publish = false

[dependencies]
anyhow = "=1.0.104"
image = { version = "=0.25.10", default-features = false, features = ["png"] }
printpdf = "=0.7.0"
qrcode = "=0.14.1"
serde = { version = "=1.0.229", features = ["derive"] }
thiserror = "=2.0.21"
