[package]
name = "pid_fan_controller"
version = "0.1.0"
edition = "2021"
publish = false

[dependencies]
getopts = "0.2"
glob = "0.3"
log = "0.4"
ordered-float = "*"
pid_control = "*"
serde = { version = "1", features = ["derive"] }
serde_derive = "1"
serde_yaml = "0.8"
snafu = "0.6"
