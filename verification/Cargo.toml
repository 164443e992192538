[package]
name = "mail_crypto"
version = "0.1.0"
edition = "2021"
publish = false

[dependencies]
aes = "=0.8.4"
cbc = { version = "=0.1.2", features = ["alloc", "block-padding"] }
mail-builder = "=0.3.2"
mail-parser = "=0.9.4"
pgp = "=0.10.2"
rand = "=0.8.8"
rasn = "=0.10.6"
rasn-cms = "=0.10.6"
rasn-pkix = "=0.10.6"
rsa = "=0.9.10"
rustls = "=0.23.45"
rustls-pki-types = "1"
tokio = { version = "1", features = ["rt"] }

[dev-dependencies]
chrono = "0.4"
