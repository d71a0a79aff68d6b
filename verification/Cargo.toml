[package]
name = "redisfs"
version = "0.1.0"
edition = "2021"
publish = false

[dependencies]
env_logger = "*"
fuse = "*"
libc = "0.2"
log = "0.4"
redis = "*"
time = "0.1"
