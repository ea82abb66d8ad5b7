[package]
name = "coreutils"
version = "0.1.0"
edition = "2021"
publish = false

[dependencies]
anyhow = "1"
base64 = "0.13"
clap = "2"
data-encoding = "2"
filetime = "0.2"
structopt = "0.3"
