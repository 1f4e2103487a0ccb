[package]
name = "backup_dumper"
version = "0.1.0"
edition = "2021"
publish = false

[dependencies]
aes = "0.8"
aes-gcm = "0.10"
aes256ctr_poly1305aes = "*"
base64 = "0.21"
blake2 = "0.10"
byteorder = "1"
cfb-mode = "0.8"
chrono = { version = "0.4", default-features = false, features = ["std"] }
clap = { version = "4", features = ["derive"] }
hex = "0.4"
lz4_flex = "0.11"
miette = { version = "5", features = ["fancy"] }
pbkdf2 = "0.12"
rmp = "0.8"
scrypt = { version = "0.11", default-features = false }
serde = { version = "1", features = ["derive"] }
serde_json = "1"
serde_repr = "0.1"
sha2 = "0.10"
thiserror = "1"
tracing = "0.1"
tracing-subscriber = "0.3"
xz2 = "0.1"
zstd = "0.13"
