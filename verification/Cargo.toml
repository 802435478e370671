[package]
name = "libscroll"
version = "0.1.0"
edition = "2021"
publish = false

[dependencies]
app_dirs = "=1.2.1"
num = "=0.4.3"
tini = "=1.3.0"
