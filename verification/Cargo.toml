[package]
name = "stof-github"
version = "0.1.0"
edition = "2021"
publish = false

[dependencies]
anyhow = "=1.0.104"
stof = "=0.1.16"
ureq = "=2.12.1"
