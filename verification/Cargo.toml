[package]
name = "rusty_roguelike"
version = "0.1.0"
edition = "2021"
publish = false

[dependencies]
bracket-lib = "0.8"
legion = "0.3"
ron = "0.6"
serde = { version = "1", features = ["derive"] }
