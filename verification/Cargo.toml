[package]
name = "xbatis2sql"
version = "0.1.0"
edition = "2021"
publish = false

[dependencies]
regex = "*"
xml-rs = "*"
getopts = "*"
walkdir = "*"
log = "*"
log4rs = "*"
concurrent-queue = "*"
