[package]
name = "pacfiles"
version = "0.1.0"
edition = "2021"
publish = false

[dependencies]
alpm = "*"
ansi_term = "*"
atty = "*"
chrono = { version = "*", default-features = false, features = ["std"] }
natord = "*"
pacmanconf = "*"
structopt = "*"
