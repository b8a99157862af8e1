[package]
name = "sitemap_gen"
version = "0.1.0"
edition = "2021"
publish = false

[dependencies]
clap = "4"
dtt = "*"
env_logger = "0.11"
indicatif = "0.17"
log = "0.4"
regex = "1"
thiserror = "2"
url = "2"
xml-rs = "0.8"
