[package]
name = "xbtunnel"
version = "0.1.0"
edition = "2021"
publish = false

[dependencies]
getopts = "=0.2.24"
pnet = "=0.35.0"
