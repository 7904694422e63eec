[package]
name = "open_sockets"
version = "0.1.0"
edition = "2021"
publish = false

[dependencies]
regex = "1"
pnet = "*"
dns-lookup = "*"
signal-hook = "*"
termion = "*"
failure = "0.1"
