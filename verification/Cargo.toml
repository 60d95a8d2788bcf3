[package]
name = "tarstream"
version = "0.1.0"
edition = "2021"
publish = false

[dependencies]
bzip2 = "0.4"
flate2 = "1"
getopts = "0.2"
tar = "0.4"
xz2 = "0.1"
zip = { version = "0.6", default-features = false, features = ["deflate"] }
