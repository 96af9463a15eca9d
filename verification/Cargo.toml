[package]
name = "leetgen"
version = "0.1.0"
edition = "2021"
publish = false

[dependencies]
clap = { version = "*", features = ["derive"] }
clap-verbosity-flag = "*"
cmd_lib = "*"
log = "*"
pretty_env_logger = "*"
