[package]
name = "run_parts"
version = "0.1.0"
edition = "2021"
publish = false

[dependencies]
regex = "*"
io-mux = "*"
is_executable = "*"
structopt = "*"
