[package]
name = "transjlc"
version = "0.1.0"
edition = "2021"
publish = false

[dependencies]
regex = "1"
md-5 = "0.10"
rand = "0.8"
chrono = "0.4"
rsa = "0.9"
aes-gcm = "0.10"
sha2 = "0.10"
base64 = "0.22"
gerber_parser = "*"
image = { version = "0.25", default-features = false, features = ["png", "jpeg", "bmp", "gif"] }
xmlwriter = "0.1"
anyhow = "1"
thiserror = "1"
clap = "4"
zip = { version = "2", default-features = false, features = ["deflate"] }
tempfile = "3"
indicatif = "0.17"
tracing = "0.1"
tracing-subscriber = { version = "0.3", features = ["env-filter"] }
