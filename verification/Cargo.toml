[package]
name = "gopper"
version = "0.1.0"
edition = "2021"

[dependencies]
clap = { version = "4", features = ["derive", "env"] }
color-eyre = "0.6"
goblin = "*"
iced-x86 = "1"
owo-colors = "*"
