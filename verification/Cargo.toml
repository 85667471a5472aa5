[package]
name = "hbci4rust"
version = "0.1.0"
edition = "2021"
publish = false

[dependencies]
sha1 = "0.10"
ripemd = "0.1"
base64 = "0.22"
quick-xml = "*"
serde = { version = "1", features = ["derive"] }
serde_json = "1"
async-trait = "0.1"
argon2 = "0.5"
chacha20poly1305 = "0.10"
rand_core = { version = "0.6", features = ["getrandom"] }
zeroize = "1"
reqwest = { version = "0.12", default-features = false, features = ["rustls-tls"] }
