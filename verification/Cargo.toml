[package]
name = "term_repl"
version = "0.1.0"
edition = "2021"
publish = false

[dependencies]
fetish-lib = "*"
ndarray = "*"
noisy_float = "*"
rand = "*"
libloading = "*"
rustyline = "*"
shellexpand = "*"
