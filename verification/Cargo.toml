[package]
name = "code_clocker"
version = "0.1.0"
edition = "2021"
publish = false

[dependencies]
chrono = "0.4"
ctrlc = "3"
dirs = "5"
rand = "0.8"
