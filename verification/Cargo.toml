[package]
name = "demosaic"
version = "0.1.0"
edition = "2021"
publish = false

[dependencies]
getopts = "0.2"
image = { version = "*", default-features = false, features = ["jpeg"] }
libraw-rs = "*"
num-traits = "0.2"
threadpool = "1"
