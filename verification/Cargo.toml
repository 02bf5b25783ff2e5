[package]
name = "rcargo"
version = "0.1.0"
edition = "2021"
publish = false

[dependencies]
base64 = "*"
clap = { version = "4", features = ["derive"] }
fast_rsync = "*"
ignore = "*"
landlock = "*"
serde = { version = "1", features = ["derive"] }
sha2 = "*"
shell-quote = "*"
tokio = { version = "1", features = ["full"] }
toml = "*"
url = "2"
xdg = "*"
