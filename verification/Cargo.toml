[package]
name = "powerbuttond"
version = "0.1.0"
edition = "2021"
publish = false

[dependencies]
toml = "*"
evdev = { version = "*", features = ["tokio"] }
tokio = { version = "*", features = ["macros", "rt-multi-thread"] }
