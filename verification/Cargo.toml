[package]
name = "genesis_rs"
version = "0.1.0"
edition = "2021"
publish = false

[dependencies]
clap = "*"
colored = "*"
console = "*"
dialoguer = "*"
dirs = "*"
dotenv = "*"
git2 = { version = "*", default-features = false }
indicatif = "*"
shellexpand = "*"
walkdir = "*"
