[package]
name = "appimage_auto"
version = "0.1.0"
edition = "2021"
publish = false

[dependencies]
md5 = "0.7"
shellexpand = "3"
clap = { version = "4", features = ["derive"] }
ctrlc = "3"
directories = "*"
notify = "*"
serde = { version = "1", features = ["derive"] }
serde_json = "1"
toml = "*"
tempfile = "3"
