[package]
name = "klaay"
version = "0.1.0"
edition = "2021"
publish = false

[dependencies]
base64 = "0.22"
clap = { version = "4", features = ["derive"] }
dirs = "6"
getrandom = "0.3"
keyring = "3"
md-5 = "0.10"
oauth2 = { version = "5", default-features = false }
open = "5"
rpassword = "7"
serde = { version = "1", features = ["derive"] }
serde_json = "1"
sha2 = "0.10"
subtle = "2"
ureq = "3"
url = "2"
zeroize = { version = "1", features = ["derive", "serde"] }
