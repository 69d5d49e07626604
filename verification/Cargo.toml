[package]
name = "slede8"
version = "0.1.0"
edition = "2021"
publish = false

[dependencies]
argparse = "0.2"
byteorder = "1"
hex = "0.4"
rustyline = "9"
