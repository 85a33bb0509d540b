[package]
name = "parser"
version = "0.1.0"
edition = "2021"
publish = false

[dependencies]
cesu8 = "1.1"
itertools = "0.10"
thiserror = "1.0"
log = "0.4"
env_logger = "0.10"
