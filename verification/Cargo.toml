[package]
name = "ruuf"
version = "0.1.0"
edition = "2021"
publish = false

[dependencies]
ctrlc = { version = "3", features = ["termination"] }
pnet = "*"
structopt = "0.3"
