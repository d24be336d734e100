[package]
name = "javasynth"
version = "0.1.0"
edition = "2021"
publish = false

[dependencies]
voca_rs = "1.15"
