[package]
name = "sc_extract"
version = "0.1.0"
edition = "2021"
publish = false

[dependencies]
byteorder = "1"
lzma-rs = "0.1"
image = { version = "0.23", default-features = false, features = ["png"] }
colored = "2"
rayon = "1"
structopt = "0.3"
