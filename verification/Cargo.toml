[package]
name = "snake_game"
version = "0.1.0"
edition = "2021"
publish = false

[dependencies]
rand = "*"
megalodon = "*"
tokio = { version = "*", features = ["macros", "rt-multi-thread", "time"] }
