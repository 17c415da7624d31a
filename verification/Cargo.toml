[package]
name = "banksy_c2pa"
version = "0.1.0"
edition = "2021"
publish = false

[dependencies]
crc32fast = "=1.5.4"
sha2 = "=0.10.9"
x509-parser = "=0.18.1"
serde = { version = "=1.0.229", features = ["derive"] }
serde_json = "=1.0.154"
toml = "=1.1.8"
clap = { version = "=4.6.7", features = ["derive"] }
dialoguer = "=0.12.0"
directories = "=6.0.0"
tempfile = "=3.27.0"
time = { version = "=0.3.55", features = ["formatting", "macros"] }
zip = { version = "=9.2.2", default-features = false }
image = { version = "=0.25.10", default-features = false, features = ["png", "jpeg"] }
rcgen = "=0.14.10"
zeroize = "=1.9.1"
hex = "=0.4.3"
c2pa = { version = "=0.90.22", default-features = false, features = ["file_io", "rust_native_crypto"] }
