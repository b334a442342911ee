[package]
name = "ycli"
version = "0.1.0"
edition = "2021"
publish = false

[dependencies]
vec-tree = "*"
swagger-utils = "*"
clap = "2"
ctrlc = "3"
gethostname = "*"
log = "0.4"
serde_yaml = "0.8"
simple-logging = "2"
termion = "1"
