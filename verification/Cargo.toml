[package]
name = "ferrite"
version = "0.1.0"
edition = "2021"
publish = false

[dependencies]
libc = "=0.2.191"
serde = { version = "=1.0.229", features = ["derive"] }
serde_json = "=1.0.154"
swayipc = "=3.0.3"
time = { version = "=0.3.55", features = ["formatting", "parsing", "local-offset"] }
toml = "=1.1.8"
wait-timeout = "=0.2.1"
zbus = "=5.19.0"
