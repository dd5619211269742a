[package]
name = "skroot"
version = "0.1.0"
edition = "2021"
publish = false

[dependencies]
base64 = "0.22"
rand = "0.8"
regex = "1"
time = { version = "0.3", features = ["local-offset"] }
anyhow = "1"
libc = "0.2"
clap = { version = "4", features = ["derive"] }
getopts = "0.2"
xattr = "1"
log = "0.4"
simple_logger = "*"
android-properties = "*"
