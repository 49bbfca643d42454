[package]
name = "x_super"
version = "0.1.0"
edition = "2021"
publish = false

[dependencies]
argh = "*"
rust-ini = "*"
skim = "*"
thiserror = "*"
which = "*"
