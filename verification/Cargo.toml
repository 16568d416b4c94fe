[package]
name = "tinyview"
version = "0.1.0"
edition = "2021"
publish = false

[dependencies]
serde = { version = "1", features = ["derive"] }
serde_json = "1"
toml = "*"
clap = { version = "4", features = ["derive"] }
libc = "0.2"
notify-debouncer-mini = "*"
tao = "*"
wry = "*"
muda = "*"
