[package]
name = "mydocker"
version = "0.1.0"
edition = "2021"
publish = false

[dependencies]
argparse = "*"
env_logger = "*"
libc = "0.2"
log = "0.4"
rand = "0.7"
unshare = "*"
