[package]
name = "zencore"
version = "0.1.0"
edition = "2021"
publish = false

[dependencies]
aes-gcm = "=0.10.3"
chacha20poly1305 = "=0.10.1"
argon2 = "=0.5.3"
sha2 = "=0.10.9"
sha3 = "=0.10.9"
blake3 = "=1.8.7"
flate2 = "=1.1.10"
tar = "=0.4.46"
zstd = "=0.14.0"
zip = "=8.6.0"
age = { version = "=0.12.1", features = ["armor"] }
secrecy = "=0.10.3"
chrono = "=0.4.45"
base64 = "=0.23.1"
walkdir = "=2.5.0"
shellexpand = "=3.1.2"
dirs = "=7.0.0"
directories = "=6.0.0"
num_cpus = "*"
serde = { version = "*", features = ["derive"] }
serde_json = "*"
toml = "*"
anyhow = "*"
clap = { version = "*", features = ["derive"] }
colored = "*"
dialoguer = "*"
indicatif = "*"
