[package]
name = "drmcap"
version = "0.1.0"
edition = "2021"
publish = false

[dependencies]
libc = "=0.2.191"
libdrmtap-sys = "=0.5.12"
log = "=0.4.35"
