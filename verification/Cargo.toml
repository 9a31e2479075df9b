[package]
name = "leafhttp"
version = "0.1.0"
edition = "2021"
publish = false

[dependencies]
mime_guess = "*"
clap = { version = "*", features = ["derive"] }
serde = { version = "*", features = ["derive"] }
confy = { version = "*", default-features = false, features = ["yaml_conf"] }
home-dir = "*"
log = "*"
simple_logger = "*"
