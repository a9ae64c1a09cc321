[package]
name = "jaime"
version = "0.1.0"
edition = "2021"
publish = false

[dependencies]
shlex = "*"
serde = { version = "*", features = ["derive"] }
serde_yaml = "*"
clap = "*"
rustyline = "*"
skim = "*"
dirs = "*"
