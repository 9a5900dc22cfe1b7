[package]
name = "ssl-core"
version = "0.1.0"
edition = "2021"
publish = false

[dependencies]
aes-gcm = "=0.10.3"
anyhow = "=1.0.104"
argon2 = "=0.5.3"
async-trait = "=0.1.92"
base64 = "=0.22.1"
chrono = "=0.4.45"
clap = { version = "=4.6.7", features = ["derive"] }
hickory-resolver = "=0.24.4"
hmac = "=0.12.1"
instant-acme = { version = "=0.8.5", features = ["rcgen"] }
percent-encoding = "=2.3.2"
rand = "=0.8.8"
reqwest = { version = "=0.12.28", default-features = false, features = ["json", "rustls-tls"] }
rustls = "=0.23.46"
serde = { version = "=1.0.229", features = ["derive"] }
serde_json = "=1.0.154"
serde_yaml = "=0.9.34"
sha1 = "=0.10.7"
sha2 = "=0.10.9"
tokio = { version = "=1.54.1", features = ["full"] }
uuid = { version = "=1.29.0", features = ["v4"] }
windows-sys = { version = "=0.59.0", features = ["Win32_Foundation", "Win32_Security", "Win32_Security_Authorization", "Win32_Security_Cryptography"] }
x509-parser = "=0.16.0"
zeroize = "=1.9.1"
