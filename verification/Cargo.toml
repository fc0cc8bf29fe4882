[package]
name = "dau"
version = "0.1.0"
edition = "2021"
publish = false

[dependencies]
toml = "0.5"
anyhow = "1"
thiserror = "1"
structopt = "0.3"
simplelog = "0.8"
log = "0.4"
libc = "0.2"
rpassword = "4"
