[package]
name = "selfish"
version = "0.1.0"
edition = "2021"
publish = false

[dependencies]
rand = "0.8"
rand_chacha = "0.3"
miette = "5"
thiserror = "1"
owo-colors = "3"
