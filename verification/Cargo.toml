[package]
name = "loggen"
version = "0.2.0"
edition = "2021"
publish = false

[dependencies]
clap = "2"
libc = "0.2"
num_cpus = "1"
walkdir = "2"
